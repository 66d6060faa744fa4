//! Binary architecture scan: every regular file of a ref that looks like an
//! executable or shared library is header-parsed, and executables compiled
//! for an architecture the ref does not target are collected into one
//! warning diagnostic per ref.

use vstd::prelude::*;

use crate::diagnostics::{DiagnosticInfo, ValidationDiagnostic, WrongArchExecutable};
use crate::strutil::str_eq;
use crate::utils::{arch_from_ref, slash0, slash1, spec_arch_from_ref};

verus! {

/// The machine field of the executable header of `data`, or `None` when
/// the bytes are not minimally parseable as one.  A function of the bytes
/// alone.
pub uninterp spec fn elf_machine_of(data: Seq<u8>) -> Option<u16>;

/// The display name the `elf` crate gives a machine code: a function of
/// the code alone.
pub uninterp spec fn machine_name_of(code: u16) -> Seq<char>;

/// Relies on `elf::ElfBytes::minimal_parse`: reads the machine field of an
/// executable header, rejecting bytes that are not one, deterministically
/// in the bytes.
#[verifier::external_body]
fn parse_elf_machine(data: &[u8]) -> (r: Option<u16>)
    ensures
        r == elf_machine_of(data@),
{
    match elf::ElfBytes::<elf::endian::AnyEndian>::minimal_parse(data) {
        Ok(f) => Some(f.ehdr.e_machine),
        Err(_) => None,
    }
}

/// Relies on `elf::to_str::e_machine_to_string`: the display name of a
/// machine code, a function of the code alone.
#[verifier::external_body]
fn machine_name(code: u16) -> (r: String)
    ensures
        r@ == machine_name_of(code),
{
    elf::to_str::e_machine_to_string(code)
}

/// Machine code of 32-bit x86 executables.
pub const EM_386: u16 = 3;

/// Machine code of x86-64 executables.
pub const EM_X86_64: u16 = 62;

/// Machine code of AArch64 executables.
pub const EM_AARCH64: u16 = 183;

/// The machine codes a ref architecture accepts: `x86_64` also accepts
/// legacy 32-bit x86, `aarch64` accepts only itself, and any other
/// architecture accepts nothing.
pub open spec fn spec_arch_accepts(arch: Seq<char>, code: u16) -> bool {
    if arch == "x86_64"@ {
        code == EM_X86_64 || code == EM_386
    } else if arch == "aarch64"@ {
        code == EM_AARCH64
    } else {
        false
    }
}

fn arch_accepts(arch: &str, code: u16) -> (r: bool)
    ensures
        r == spec_arch_accepts(arch@, code),
{
    if str_eq(arch, "x86_64") {
        code == EM_X86_64 || code == EM_386
    } else if str_eq(arch, "aarch64") {
        code == EM_AARCH64
    } else {
        false
    }
}

/// One regular file of the ref's payload, sniffed as executable or shared
/// library by the caller.
pub struct ScannedFile {
    pub path: String,
    pub data: Vec<u8>,
}

/// Whether the file parses as an executable whose machine code the ref's
/// architecture does not accept.
pub open spec fn spec_offender(f: ScannedFile, arch: Seq<char>) -> bool {
    elf_machine_of(f.data@) matches Some(c) && !spec_arch_accepts(arch, c)
}

/// The offending files, in scan order.
pub open spec fn spec_offenders(fs: Seq<ScannedFile>, arch: Seq<char>) -> Seq<ScannedFile>
    decreases fs.len(),
{
    if fs.len() == 0 {
        Seq::empty()
    } else {
        (if spec_offender(fs[0], arch) {
            seq![fs[0]]
        } else {
            Seq::empty()
        }) + spec_offenders(fs.drop_first(), arch)
    }
}

/// Whether the listed executables describe exactly the offenders, in order.
pub open spec fn spec_entries_describe(
    es: Seq<WrongArchExecutable>,
    fs: Seq<ScannedFile>,
    arch: Seq<char>,
) -> bool {
    let off = spec_offenders(fs, arch);
    &&& es.len() == off.len()
    &&& forall|j: int|
        0 <= j < es.len() ==> {
            &&& (#[trigger] es[j]).path@ == off[j].path@
            &&& elf_machine_of(off[j].data@) == Some(es[j].detected_arch_code)
            &&& es[j].detected_arch@ == machine_name_of(es[j].detected_arch_code)
        }
}

/// Examines one sniffed file: a parse failure is silently skipped (a file
/// matching the sniff heuristic need not be an executable); a parseable
/// executable is reported iff its machine code is not accepted.
pub fn review_executable_data(path: &str, data: &[u8], arch: &str) -> (r: Option<
    WrongArchExecutable,
>)
    ensures
        match elf_machine_of(data@) {
            None => r is None,
            Some(code) => {
                if spec_arch_accepts(arch@, code) {
                    r is None
                } else {
                    &&& r matches Some(w)
                    &&& w.path@ == path@
                    &&& w.detected_arch_code == code
                    &&& w.detected_arch@ == machine_name_of(code)
                }
            },
        },
{
    match parse_elf_machine(data) {
        None => None,
        Some(code) => {
            if arch_accepts(arch, code) {
                None
            } else {
                Some(
                    WrongArchExecutable {
                        path: path.to_owned(),
                        detected_arch: machine_name(code),
                        detected_arch_code: code,
                    },
                )
            }
        },
    }
}

/// Scans every sniffed file of a ref and accumulates the mismatches into
/// one warning diagnostic listing every offending path — never one
/// diagnostic per file.  No mismatch, no diagnostic.
pub fn review_files(files: &Vec<ScannedFile>, refstring: &str) -> (r: Option<ValidationDiagnostic>)
    requires
        slash0(refstring@) < refstring@.len(),
        slash1(refstring@) < refstring@.len(),
    ensures
        match r {
            None => spec_offenders(files@, spec_arch_from_ref(refstring@)).len() == 0,
            Some(d) => {
                &&& d.is_warning
                &&& (d.refstring matches Some(s) && s@ == refstring@)
                &&& (d.info matches DiagnosticInfo::WrongArchExecutables { executables }
                    && spec_entries_describe(
                    executables@,
                    files@,
                    spec_arch_from_ref(refstring@),
                ) && executables@.len() > 0)
            },
        },
{
    let arch = arch_from_ref(refstring);
    let ghost archv = spec_arch_from_ref(refstring@);
    let n = files.len();
    let mut entries: Vec<WrongArchExecutable> = Vec::new();
    let ghost mut off: Seq<ScannedFile> = Seq::empty();
    proof {
        assert(files@.skip(0) =~= files@);
    }
    let mut i: usize = 0;
    while i < n
        invariant
            n == files@.len(),
            i <= n,
            arch@ == archv,
            entries@.len() == off.len(),
            spec_offenders(files@, archv) == off + spec_offenders(files@.skip(i as int), archv),
            forall|j: int|
                0 <= j < entries@.len() ==> {
                    &&& (#[trigger] entries@[j]).path@ == off[j].path@
                    &&& elf_machine_of(off[j].data@) == Some(entries@[j].detected_arch_code)
                    &&& entries@[j].detected_arch@ == machine_name_of(
                        entries@[j].detected_arch_code,
                    )
                },
        decreases n - i,
    {
        proof {
            assert(files@.skip(i as int)[0] == files@[i as int]);
            assert(files@.skip(i as int).drop_first() =~= files@.skip(i as int + 1));
        }
        match review_executable_data(
            files[i].path.as_str(),
            files[i].data.as_slice(),
            arch.as_str(),
        ) {
            Some(w) => {
                entries.push(w);
                proof {
                    off = off.push(files@[i as int]);
                    assert(off + spec_offenders(files@.skip(i as int + 1), archv)
                        =~= off.drop_last() + spec_offenders(files@.skip(i as int), archv));
                }
            },
            None => {
                proof {
                    assert(off + spec_offenders(files@.skip(i as int + 1), archv) =~= off
                        + spec_offenders(files@.skip(i as int), archv));
                }
            },
        }
        i += 1;
    }
    proof {
        assert(files@.skip(n as int).len() == 0);
        assert(spec_offenders(files@, archv) =~= off);
    }
    if entries.len() == 0 {
        None
    } else {
        Some(
            ValidationDiagnostic::new_warning(
                DiagnosticInfo::WrongArchExecutables { executables: entries },
                Some(refstring.to_owned()),
            ),
        )
    }
}

} // verus!
