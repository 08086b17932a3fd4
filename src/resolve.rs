use vstd::prelude::*;
use vstd::string::*;

use crate::error::InjectError;
use crate::process::agrees_at;

verus! {

/// One loaded module of a target process, as enumerated at one moment.
pub struct ModuleInfo {
    pub name: String,
    pub base_address: u64,
    pub size: u64,
    pub path: String,
}

/// What looking up an export in a module's on-disk image gave.
#[derive(Debug, Clone, Copy, PartialEq, Eq, Structural)]
pub enum ExportLookup {
    /// The export's address relative to the image's preferred base.
    Found(u64),
    /// The image has no export of that name.
    Missing,
    /// The image could not be read or is malformed.
    Unreadable,
}

pub open spec fn occurs_at(h: Seq<char>, n: Seq<char>, k: int) -> bool {
    0 <= k && k + n.len() <= h.len() && h.subrange(k, k + n.len()) == n
}

/// Case-sensitive substring test.
pub open spec fn contains_spec(h: Seq<char>, n: Seq<char>) -> bool {
    exists|k: int| occurs_at(h, n, k)
}

/// Index of the first module whose name contains `needle`.
pub open spec fn first_match(ms: Seq<ModuleInfo>, needle: Seq<char>) -> Option<int>
    decreases ms.len(),
{
    if ms.len() == 0 {
        None
    } else {
        match first_match(ms.drop_last(), needle) {
            Some(i) => Some(i),
            None => if contains_spec(ms.last().name@, needle) {
                Some(ms.len() - 1)
            } else {
                None
            },
        }
    }
}

/// The absolute address of an export in a module loaded at `base`.
pub open spec fn export_spec(base: u64, export: ExportLookup) -> Result<u64, InjectError> {
    match export {
        ExportLookup::Found(rva) => if base + rva <= u64::MAX {
            Ok((base + rva) as u64)
        } else {
            Err(InjectError::ImageParseError)
        },
        ExportLookup::Missing => Err(InjectError::SymbolNotFound),
        ExportLookup::Unreadable => Err(InjectError::ImageParseError),
    }
}

/// Resolution of an export in the first module whose name contains `needle`,
/// given what the lookup in that module's image gave.
pub open spec fn resolve_spec(ms: Seq<ModuleInfo>, needle: Seq<char>, export: ExportLookup) -> Result<
    u64,
    InjectError,
> {
    match first_match(ms, needle) {
        None => Err(InjectError::ModuleNotFound),
        Some(i) => export_spec(ms[i].base_address, export),
    }
}

/// Case-sensitive substring test.
pub fn contains(h: &str, n: &str) -> (r: bool)
    ensures
        r == contains_spec(h@, n@),
{
    let hl = h.unicode_len();
    let nl = n.unicode_len();
    if nl > hl {
        return false;
    }
    let mut k: usize = 0;
    while k < hl - nl
        invariant
            hl == h@.len(),
            nl == n@.len(),
            nl <= hl,
            k <= hl - nl,
            forall|j: int| 0 <= j < k ==> !occurs_at(h@, n@, j),
        decreases hl - nl + 1 - k,
    {
        if agrees_at(n, h, k) {
            assert(occurs_at(h@, n@, k as int));
            return true;
        }
        k = k + 1;
    }
    if agrees_at(n, h, k) {
        assert(occurs_at(h@, n@, k as int));
        return true;
    }
    assert forall|j: int| !occurs_at(h@, n@, j) by {
        if 0 <= j && j + n@.len() <= h@.len() {
            assert(j <= k);
        }
    }
    false
}

/// Finds the first module whose name contains `needle`.
pub fn find_module(modules: &Vec<ModuleInfo>, needle: &str) -> (r: Option<usize>)
    ensures
        match r {
            Some(i) => i < modules@.len() && first_match(modules@, needle@) == Some(i as int),
            None => first_match(modules@, needle@) is None,
        },
{
    let mut i: usize = 0;
    assert(modules@.take(0).len() == 0);
    while i < modules.len()
        invariant
            i <= modules@.len(),
            first_match(modules@.take(i as int), needle@) is None,
        decreases modules@.len() - i,
    {
        assert(modules@.take(i + 1).drop_last() =~= modules@.take(i as int));
        if contains(modules[i].name.as_str(), needle) {
            proof {
                lemma_first_match_prefix(modules@, needle@, i + 1);
            }
            return Some(i);
        }
        i = i + 1;
    }
    assert(modules@.take(i as int) =~= modules@);
    None
}

/// A match found in a prefix is the match of the whole list.
proof fn lemma_first_match_prefix(ms: Seq<ModuleInfo>, needle: Seq<char>, k: int)
    requires
        0 <= k <= ms.len(),
        first_match(ms.take(k), needle) is Some,
    ensures
        first_match(ms, needle) == first_match(ms.take(k), needle),
    decreases ms.len() - k,
{
    if k < ms.len() {
        assert(ms.take(k + 1).drop_last() =~= ms.take(k));
        lemma_first_match_prefix(ms, needle, k + 1);
    } else {
        assert(ms.take(k) =~= ms);
    }
}

/// The absolute address of an export in a module loaded at `base`.
pub fn export_address(base: u64, export: ExportLookup) -> (r: Result<u64, InjectError>)
    ensures
        r == export_spec(base, export),
{
    match export {
        ExportLookup::Found(rva) => match base.checked_add(rva) {
            Some(a) => Ok(a),
            None => Err(InjectError::ImageParseError),
        },
        ExportLookup::Missing => Err(InjectError::SymbolNotFound),
        ExportLookup::Unreadable => Err(InjectError::ImageParseError),
    }
}

/// Resolves an export in the first module whose name contains `needle`,
/// given what the lookup in that module's image gave.
pub fn resolve_symbol(modules: &Vec<ModuleInfo>, needle: &str, export: ExportLookup) -> (r: Result<
    u64,
    InjectError,
>)
    ensures
        r == resolve_spec(modules@, needle@, export),
{
    match find_module(modules, needle) {
        None => Err(InjectError::ModuleNotFound),
        Some(i) => export_address(modules[i].base_address, export),
    }
}

/// The first match depends on the module names alone.
pub proof fn lemma_first_match_by_names(m1: Seq<ModuleInfo>, m2: Seq<ModuleInfo>, needle: Seq<char>)
    requires
        m1.len() == m2.len(),
        forall|j: int| 0 <= j < m1.len() ==> (#[trigger] m1[j]).name@ == m2[j].name@,
    ensures
        first_match(m1, needle) == first_match(m2, needle),
    decreases m1.len(),
{
    if m1.len() > 0 {
        let (p1, p2) = (m1.drop_last(), m2.drop_last());
        assert forall|j: int| 0 <= j < p1.len() implies (#[trigger] p1[j]).name@ == p2[j].name@ by {
            assert(p1[j] == m1[j]);
            assert(p2[j] == m2[j]);
        }
        lemma_first_match_by_names(p1, p2, needle);
        assert(m1.last() == m1[m1.len() - 1]);
        assert(m2.last() == m2[m2.len() - 1]);
    }
}

/// Resolution is relative to the load base: in two snapshots of the same
/// modules that differ only in where the modules were loaded, the same export
/// resolves to addresses that differ by exactly the difference of the bases of
/// the module it was found in.
pub proof fn lemma_resolution_follows_base(
    m1: Seq<ModuleInfo>,
    m2: Seq<ModuleInfo>,
    needle: Seq<char>,
    export: ExportLookup,
)
    requires
        m1.len() == m2.len(),
        forall|j: int|
            0 <= j < m1.len() ==> (#[trigger] m1[j]).name@ == m2[j].name@ && m1[j].size
                == m2[j].size && m1[j].path@ == m2[j].path@,
        resolve_spec(m1, needle, export) is Ok,
        resolve_spec(m2, needle, export) is Ok,
    ensures
        first_match(m1, needle) == first_match(m2, needle),
        first_match(m1, needle) is Some,
        resolve_spec(m2, needle, export)->Ok_0 - resolve_spec(m1, needle, export)->Ok_0 == m2[first_match(
            m1,
            needle,
        )->Some_0].base_address - m1[first_match(m1, needle)->Some_0].base_address,
{
    lemma_first_match_by_names(m1, m2, needle);
}

} // verus!
