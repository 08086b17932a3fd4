use vstd::prelude::*;
use vstd::string::*;

verus! {

/// One entry of a process directory snapshot.
pub struct ProcessEntry {
    pub pid: u32,
    pub name: String,
}

impl ProcessEntry {
    pub open spec fn view(&self) -> (u32, Seq<char>) {
        (self.pid, self.name@)
    }
}

/// The views of a snapshot's entries, in snapshot order.
pub open spec fn entries_view(procs: Seq<ProcessEntry>) -> Seq<(u32, Seq<char>)> {
    procs.map_values(|p: ProcessEntry| p@)
}

/// A process is a target candidate when its name is the executable name, or
/// that name followed by the platform's executable suffix (case-sensitive).
pub open spec fn is_target_spec(name: Seq<char>, exe: Seq<char>, suffix: Seq<char>) -> bool {
    name == exe || name == exe + suffix
}

/// The entries of `s` that are target candidates, in their order in `s`.
pub open spec fn targets_of(s: Seq<(u32, Seq<char>)>, exe: Seq<char>, suffix: Seq<char>) -> Seq<
    (u32, Seq<char>),
>
    decreases s.len(),
{
    if s.len() == 0 {
        Seq::empty()
    } else {
        let rest = targets_of(s.drop_last(), exe, suffix);
        if is_target_spec(s.last().1, exe, suffix) {
            rest.push(s.last())
        } else {
            rest
        }
    }
}

/// Whether `a` occurs in `b` at position `start`.
pub(crate) fn agrees_at(a: &str, b: &str, start: usize) -> (r: bool)
    requires
        start + a@.len() <= b@.len(),
    ensures
        r == (b@.subrange(start as int, start + a@.len()) == a@),
{
    let n = a.unicode_len();
    let m = b.unicode_len();
    let mut i: usize = 0;
    while i < n
        invariant
            n == a@.len(),
            m == b@.len(),
            start + n <= m,
            i <= n,
            forall|k: int| 0 <= k < i ==> b@[start + k] == a@[k],
        decreases n - i,
    {
        if a.get_char(i) != b.get_char(start + i) {
            assert(b@.subrange(start as int, start + a@.len())[i as int] != a@[i as int]);
            return false;
        }
        i = i + 1;
    }
    assert(b@.subrange(start as int, start + a@.len()) =~= a@);
    true
}

/// Case-sensitive test of the target-name predicate.
pub fn is_target_name(name: &str, exe: &str, suffix: &str) -> (r: bool)
    ensures
        r == is_target_spec(name@, exe@, suffix@),
{
    let n = name.unicode_len();
    let e = exe.unicode_len();
    let s = suffix.unicode_len();
    if n == e {
        let r = agrees_at(exe, name, 0);
        proof {
            assert(name@.subrange(0, n as int) =~= name@);
            if s == 0 {
                assert(exe@ + suffix@ =~= exe@);
            } else {
                assert(name@.len() != (exe@ + suffix@).len());
            }
        }
        return r;
    }
    if e <= n && n - e == s {
        let head = agrees_at(exe, name, 0);
        let tail = agrees_at(suffix, name, e);
        proof {
            if head && tail {
                assert(name@ =~= exe@ + suffix@);
            }
            if name@ == exe@ + suffix@ {
                assert(name@.subrange(0, e as int) =~= exe@);
                assert(name@.subrange(e as int, e + s) =~= suffix@);
            }
        }
        return head && tail;
    }
    proof {
        assert(name@.len() != (exe@ + suffix@).len());
    }
    false
}

/// Keeps the entries of `procs` whose name is `exe` or `exe` followed by
/// `suffix`, in their original order.
pub fn find_procs(procs: &Vec<ProcessEntry>, exe: &str, suffix: &str) -> (r: Vec<ProcessEntry>)
    ensures
        entries_view(r@) == targets_of(entries_view(procs@), exe@, suffix@),
{
    let mut out: Vec<ProcessEntry> = Vec::new();
    let mut i: usize = 0;
    while i < procs.len()
        invariant
            i <= procs@.len(),
            entries_view(out@) == targets_of(entries_view(procs@.take(i as int)), exe@, suffix@),
        decreases procs@.len() - i,
    {
        let p = &procs[i];
        proof {
            assert(entries_view(procs@.take(i + 1)).drop_last() =~= entries_view(
                procs@.take(i as int),
            ));
        }
        if is_target_name(p.name.as_str(), exe, suffix) {
            out.push(ProcessEntry { pid: p.pid, name: p.name.clone() });
            proof {
                assert(entries_view(out@) =~= targets_of(
                    entries_view(procs@.take(i as int)),
                    exe@,
                    suffix@,
                ).push(p@));
            }
        }
        i = i + 1;
    }
    assert(procs@.take(procs@.len() as int) =~= procs@);
    out
}

/// The name of the first entry of the snapshot with the given pid.
pub open spec fn title_of(s: Seq<(u32, Seq<char>)>, pid: u32) -> Option<Seq<char>>
    decreases s.len(),
{
    if s.len() == 0 {
        None
    } else if s[0].0 == pid {
        Some(s[0].1)
    } else {
        title_of(s.drop_first(), pid)
    }
}

/// Looks up the name that the snapshot records for `pid`; `None` when the
/// process is not in it (it may have exited since).
pub fn get_process_title(procs: &Vec<ProcessEntry>, pid: u32) -> (r: Option<String>)
    ensures
        match r {
            Some(t) => title_of(entries_view(procs@), pid) == Some(t@),
            None => title_of(entries_view(procs@), pid) is None,
        },
{
    let mut i: usize = 0;
    assert(entries_view(procs@).skip(0) =~= entries_view(procs@));
    while i < procs.len()
        invariant
            i <= procs@.len(),
            title_of(entries_view(procs@), pid) == title_of(
                entries_view(procs@).skip(i as int),
                pid,
            ),
        decreases procs@.len() - i,
    {
        let ghost rest = entries_view(procs@).skip(i as int);
        assert(rest[0] == procs@[i as int]@);
        if procs[i].pid == pid {
            return Some(procs[i].name.clone());
        }
        assert(rest.drop_first() =~= entries_view(procs@).skip(i + 1));
        i = i + 1;
    }
    None
}

} // verus!
