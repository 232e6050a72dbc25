use crate::timestamp::{parse_run_name, spec_parse, valid_run_name, Timestamp};
use vstd::prelude::*;

verus! {

use vstd::multiset::Multiset;
use vstd::seq_lib::lemma_multiset_commutative;

broadcast use {vstd::seq_lib::group_to_multiset_ensures, vstd::seq_lib::lemma_multiset_commutative};

/// A run folder recognized during enumeration: its directory name together
/// with the timestamp that name encodes.
#[derive(Debug)]
pub struct RunFolder {
    pub name: String,
    pub ts: Timestamp,
}

impl RunFolder {
    /// The name is a valid run-folder name and the timestamp is the one it
    /// encodes.
    pub open spec fn wf(&self) -> bool {
        &&& valid_run_name(self.name@)
        &&& self.ts == spec_parse(self.name@)
    }
}

impl Clone for RunFolder {
    fn clone(&self) -> (r: Self)
        ensures
            r == *self,
    {
        RunFolder { name: self.name.clone(), ts: self.ts }
    }
}

/// Whether `f` names a valid run folder.
pub open spec fn is_run_folder(f: String) -> bool {
    valid_run_name(f@)
}

/// Every folder of `s` is at least as new as every folder before it:
/// oldest first.
pub open spec fn sorted_old_first(s: Seq<RunFolder>) -> bool {
    forall|i: int, j: int| 0 <= i < j < s.len() ==> !(#[trigger] s[j]).ts.before_spec(&(#[trigger] s[i]).ts)
}

/// The run folders among `names`: entries whose name parses under the fixed
/// `YYYY-MM-DD HH_MM_SS` pattern, in order of appearance. Foreign names are
/// skipped here and so stay invisible to both retention policies.
pub fn collect_valid(names: &Vec<String>) -> (r: Vec<RunFolder>)
    ensures
        forall|i: int| 0 <= i < r@.len() ==> (#[trigger] r@[i]).wf(),
        r@.map_values(|f: RunFolder| f.name) == names@.filter(|n: String| is_run_folder(n)),
{
    let mut out: Vec<RunFolder> = Vec::new();
    let mut i: usize = 0;
    proof {
        reveal(Seq::filter);
        assert(names@.subrange(0, 0) =~= Seq::<String>::empty());
        assert(out@.map_values(|f: RunFolder| f.name) =~= names@.subrange(0, 0).filter(
            |n: String| is_run_folder(n),
        ));
    }
    while i < names.len()
        invariant
            i <= names@.len(),
            forall|k: int| 0 <= k < out@.len() ==> (#[trigger] out@[k]).wf(),
            out@.map_values(|f: RunFolder| f.name) == names@.subrange(0, i as int).filter(
                |n: String| is_run_folder(n),
            ),
        decreases names@.len() - i,
    {
        let ghost prefix = names@.subrange(0, i as int);
        let ghost prefix1 = names@.subrange(0, i + 1);
        proof {
            reveal(Seq::filter);
            assert(prefix1.drop_last() =~= prefix);
            assert(prefix1.last() == names@[i as int]);
        }
        match parse_run_name(names[i].as_str()) {
            Some(ts) => {
                out.push(RunFolder { name: names[i].clone(), ts });
                proof {
                    assert(out@.map_values(|f: RunFolder| f.name) =~= prefix1.filter(
                        |n: String| is_run_folder(n),
                    ));
                }
            },
            None => {
                proof {
                    assert(out@.map_values(|f: RunFolder| f.name) =~= prefix1.filter(
                        |n: String| is_run_folder(n),
                    ));
                }
            },
        }
        i = i + 1;
    }
    proof {
        assert(names@.subrange(0, names@.len() as int) =~= names@);
    }
    out
}

/// Strictly-before is transitive over timestamps.
proof fn lemma_before_transitive(a: Timestamp, b: Timestamp, c: Timestamp)
    requires
        a.before_spec(&b),
        b.before_spec(&c),
    ensures
        a.before_spec(&c),
{
}

/// Sort run folders oldest first. The result holds exactly the given
/// folders, rearranged.
pub fn sort_folders(folders: Vec<RunFolder>) -> (r: Vec<RunFolder>)
    ensures
        sorted_old_first(r@),
        r@.to_multiset() == folders@.to_multiset(),
        r@.len() == folders@.len(),
        forall|i: int| 0 <= i < r@.len() ==> folders@.contains(#[trigger] r@[i]),
{
    let ghost orig = folders@;
    let mut rest = folders;
    let mut out: Vec<RunFolder> = Vec::new();
    proof {
        assert(out@.to_multiset().add(rest@.to_multiset()) =~= rest@.to_multiset());
    }
    while rest.len() > 0
        invariant
            sorted_old_first(out@),
            out@.to_multiset().add(rest@.to_multiset()) == orig.to_multiset(),
            out@.len() + rest@.len() == orig.len(),
        decreases rest@.len(),
    {
        let ghost rest_before = rest@;
        if let Some(x) = rest.pop() {
            let mut j: usize = 0;
            while j < out.len() && !x.ts.is_before(&out[j].ts)
                invariant
                    j <= out@.len(),
                    forall|m: int| 0 <= m < j ==> !x.ts.before_spec(&(#[trigger] out@[m]).ts),
                decreases out@.len() - j,
            {
                j = j + 1;
            }
            let ghost jj = j as int;
            let ghost out_before = out@;
            out.insert(j, x);
            proof {
                assert(sorted_old_first(out@)) by {
                    out_before.insert_ensures(jj, x);
                    assert forall|p: int, q: int|
                        0 <= p < q < out@.len() implies !out@[q].ts.before_spec(&out@[p].ts) by {
                        if q < jj {
                        } else if p > jj {
                            assert(out@[p] == out_before[p - 1]);
                            assert(out@[q] == out_before[q - 1]);
                        } else if p == jj && q > jj {
                            assert(out@[p] == x);
                            assert(out@[q] == out_before[q - 1]);
                            if out@[q].ts.before_spec(&out@[p].ts) {
                                assert(jj <= q - 1 < out_before.len());
                                assert(x.ts.before_spec(&out_before[jj].ts));
                                lemma_before_transitive(
                                    out_before[q - 1].ts,
                                    x.ts,
                                    out_before[jj].ts,
                                );
                                assert(false);
                            }
                        } else if q == jj {
                            assert(out@[q] == x);
                            assert(out@[p] == out_before[p]);
                        } else {
                            assert(out@[p] == out_before[p]);
                            assert(out@[q] == out_before[q - 1]);
                        }
                    }
                }
                assert(out@.to_multiset() =~= out_before.to_multiset().insert(x)) by {
                    assert(out@ =~= out_before.subrange(0, jj).push(x) + out_before.subrange(
                        jj,
                        out_before.len() as int,
                    ));
                    lemma_multiset_commutative(
                        out_before.subrange(0, jj).push(x),
                        out_before.subrange(jj, out_before.len() as int),
                    );
                    lemma_multiset_commutative(
                        out_before.subrange(0, jj),
                        out_before.subrange(jj, out_before.len() as int),
                    );
                    assert(out_before.subrange(0, jj) + out_before.subrange(
                        jj,
                        out_before.len() as int,
                    ) =~= out_before);
                }
                assert(rest_before =~= rest@.push(x));
                assert(out@.to_multiset().add(rest@.to_multiset()) =~= orig.to_multiset());
            }
        } else {
            // popping a non-empty vector always yields a value
            proof {
                assert(false);
            }
        }
    }
    proof {
        assert(rest@.to_multiset() =~= Multiset::<RunFolder>::empty());
        assert(out@.to_multiset().add(rest@.to_multiset()) =~= out@.to_multiset());
        assert forall|i: int| 0 <= i < out@.len() implies orig.contains(#[trigger] out@[i]) by {
            assert(out@.to_multiset().count(out@[i]) > 0);
            assert(orig.to_multiset().count(out@[i]) > 0);
        }
    }
    out
}

/// How many of `valid` recognized run folders the count policy dooms when
/// `stored` executions may be kept: one slot is reserved for the run about
/// to be created, and the demand can never exceed what exists. A `stored`
/// of zero therefore behaves like one: every already existing run folder is
/// doomed, and only the new run survives.
pub open spec fn count_doomed(valid: int, stored: int) -> int {
    let excess = valid + 1 - stored;
    if excess <= 0 {
        0
    } else if excess > valid {
        valid
    } else {
        excess
    }
}

/// Split the recognized run folders into those the count policy dooms,
/// oldest first, and those it keeps. No doomed folder is newer than any
/// kept one, so the newest folders are exactly the ones that survive.
pub fn select_count_victims(folders: Vec<RunFolder>, executions_stored: u32) -> (r: (
    Vec<RunFolder>,
    Vec<RunFolder>,
))
    ensures
        r.0@.len() == count_doomed(folders@.len() as int, executions_stored as int),
        (r.0@ + r.1@).to_multiset() == folders@.to_multiset(),
        sorted_old_first(r.0@),
        forall|i: int, j: int|
            0 <= i < r.0@.len() && 0 <= j < r.1@.len() ==> !(#[trigger] r.1@[j]).ts.before_spec(
                &(#[trigger] r.0@[i]).ts,
            ),
        forall|i: int| 0 <= i < r.0@.len() ==> folders@.contains(#[trigger] r.0@[i]),
{
    let n = folders.len();
    let mut sorted = sort_folders(folders);
    let ghost whole = sorted@;
    let k: usize = if executions_stored == 0 {
        n
    } else {
        let keep: usize = (executions_stored - 1) as usize;
        if n > keep {
            n - keep
        } else {
            0
        }
    };
    let kept = sorted.split_off(k);
    proof {
        assert(sorted@ + kept@ =~= whole);
    }
    (sorted, kept)
}

/// The run folders strictly older than `cutoff`: exactly those the age
/// policy dooms.
pub fn select_age_victims(folders: &Vec<RunFolder>, cutoff: &Timestamp) -> (r: Vec<RunFolder>)
    ensures
        r@ == folders@.filter(|f: RunFolder| f.ts.before_spec(cutoff)),
{
    let mut out: Vec<RunFolder> = Vec::new();
    let mut i: usize = 0;
    proof {
        reveal(Seq::filter);
        assert(folders@.subrange(0, 0) =~= Seq::<RunFolder>::empty());
        assert(out@ =~= folders@.subrange(0, 0).filter(|f: RunFolder| f.ts.before_spec(cutoff)));
    }
    while i < folders.len()
        invariant
            i <= folders@.len(),
            out@ == folders@.subrange(0, i as int).filter(
                |f: RunFolder| f.ts.before_spec(cutoff),
            ),
        decreases folders@.len() - i,
    {
        let ghost prefix = folders@.subrange(0, i as int);
        let ghost prefix1 = folders@.subrange(0, i + 1);
        proof {
            reveal(Seq::filter);
            assert(prefix1.drop_last() =~= prefix);
            assert(prefix1.last() == folders@[i as int]);
        }
        if folders[i].ts.is_before(cutoff) {
            out.push(folders[i].clone());
        }
        proof {
            assert(out@ =~= prefix1.filter(|f: RunFolder| f.ts.before_spec(cutoff)));
        }
        i = i + 1;
    }
    proof {
        assert(folders@.subrange(0, folders@.len() as int) =~= folders@);
    }
    out
}

} // verus!
