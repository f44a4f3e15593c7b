//! The agent's durable spool: file names of queued events and the order in
//! which they are replayed.
use vstd::prelude::*;
use crate::model::{event_issue, Event, ValidationError};
use crate::text::{chars_of, join2, join3, lemma_text_le_total, lemma_text_le_transitive, text_at_or_before, text_le};

verus! {

/// Why the spool refuses an event.
#[derive(Clone, Debug, PartialEq, Eq)]
pub enum SpoolError {
    Invalid(ValidationError),
    AlreadyQueued,
}

/// The file that holds a queued event.
pub open spec fn spool_file(event_id: Seq<char>) -> Seq<char> {
    event_id + ".json"@
}

/// The file an event is written to before it is committed by a rename.
pub open spec fn spool_temp_file(event_id: Seq<char>) -> Seq<char> {
    "."@ + event_id + ".tmp"@
}

/// A spool entry is replayed when its file name has the extension `json`:
/// it ends in `.json` after at least one character.
pub open spec fn has_json_extension(name: Seq<char>) -> bool {
    name.len() >= 6 && name.subrange(name.len() - 5, name.len() as int) == ".json"@
}

/// The file name of a queued event.
pub fn spool_file_name(event_id: &str) -> (r: String)
    ensures
        r@ == spool_file(event_id@),
{
    join2(event_id, ".json")
}

/// The temporary file name of an event being queued.
pub fn spool_temp_name(event_id: &str) -> (r: String)
    ensures
        r@ == spool_temp_file(event_id@),
{
    join3(".", event_id, ".tmp")
}

/// Whether a file of the spool directory holds a queued event.
pub fn is_spool_entry(name: &str) -> (r: bool)
    ensures
        r == has_json_extension(name@),
{
    let cs = chars_of(name);
    let n = cs.len();
    if n < 6 {
        return false;
    }
    proof {
        reveal_strlit(".json");
    }
    let r = cs[n - 5] == '.' && cs[n - 4] == 'j' && cs[n - 3] == 's' && cs[n - 2] == 'o' && cs[n - 1] == 'n';
    proof {
        if r {
            assert(name@.subrange(n - 5, n as int) =~= ".json"@);
        } else {
            let sub = name@.subrange(n - 5, n as int);
            if sub == ".json"@ {
                assert(sub[0] == '.' && sub[1] == 'j' && sub[2] == 's' && sub[3] == 'o' && sub[4] == 'n');
            }
        }
    }
    r
}

/// Law: the file of a queued event is replayed, and its temporary file is not.
pub proof fn law_queued_file_is_replayed(event_id: Seq<char>)
    requires
        event_id.len() > 0,
    ensures
        has_json_extension(spool_file(event_id)),
        !has_json_extension(spool_temp_file(event_id)),
{
    reveal_strlit(".json");
    reveal_strlit(".tmp");
    reveal_strlit(".");
    let f = spool_file(event_id);
    assert(f.subrange(f.len() - 5, f.len() as int) =~= ".json"@);
    let t = spool_temp_file(event_id);
    if t.len() >= 6 {
        assert(t[t.len() - 1] == 'p');
        assert(".json"@[4] == 'n');
    }
}

/// The file an event is queued under, when it may be queued: it must be valid
/// and not already queued (`queued` tells whether its file exists).
pub fn enqueue_target(event: &Event, queued: bool) -> (r: Result<String, SpoolError>)
    ensures
        match event_issue(*event) {
            Some(e) => r == Err::<String, SpoolError>(SpoolError::Invalid(e)),
            None => if queued {
                r == Err::<String, SpoolError>(SpoolError::AlreadyQueued)
            } else {
                r matches Ok(name) && name@ == spool_file(event.event_id@)
            },
        },
{
    if let Err(e) = event.validate() {
        return Err(SpoolError::Invalid(e));
    }
    if queued {
        return Err(SpoolError::AlreadyQueued);
    }
    Ok(spool_file_name(event.event_id.as_str()))
}

/// `order` lists, as positions into `names`, every replayed name once, in
/// ascending name order.
pub open spec fn replay_order(names: Seq<String>, order: Seq<usize>) -> bool {
    &&& forall|t: int| 0 <= t < order.len() ==> (#[trigger] order[t]) < names.len() && has_json_extension(names[order[t] as int]@)
    &&& forall|t: int, u: int| 0 <= t < u < order.len() ==> #[trigger] order[t] != #[trigger] order[u]
    &&& forall|t: int, u: int| 0 <= t < u < order.len() ==> text_le(#[trigger] names[order[t] as int]@, #[trigger] names[order[u] as int]@)
    &&& forall|j: int| 0 <= j < names.len() && has_json_extension(#[trigger] names[j]@) ==> order.contains(j as usize)
}

/// The order in which the spool replays its files, given the file names of
/// its directory.
pub fn replay_order_of(names: &Vec<String>) -> (r: Vec<usize>)
    ensures
        replay_order(names@, r@),
{
    let n = names.len();
    let mut taken: Vec<bool> = Vec::new();
    for i in 0..n
        invariant
            taken@.len() == i,
            forall|t: int| 0 <= t < i ==> !#[trigger] taken@[t],
    {
        taken.push(false);
    }
    let mut order: Vec<usize> = Vec::new();
    let mut done = false;
    while !done
        invariant
            n == names@.len(),
            taken@.len() == n,
            order@.len() <= n,
            forall|i: int| 0 <= i < n ==> (#[trigger] taken@[i] <==> order@.contains(i as usize)),
            forall|t: int| 0 <= t < order@.len() ==> (#[trigger] order@[t]) < n && has_json_extension(names@[order@[t] as int]@),
            forall|t: int, u: int| 0 <= t < u < order@.len() ==> #[trigger] order@[t] != #[trigger] order@[u],
            forall|t: int, u: int| 0 <= t < u < order@.len() ==> text_le(#[trigger] names@[order@[t] as int]@, #[trigger] names@[order@[u] as int]@),
            forall|j: int| 0 <= j < n && has_json_extension(#[trigger] names@[j]@) && !taken@[j] && order@.len() > 0
                ==> text_le(names@[order@.last() as int]@, names@[j]@),
            done ==> forall|j: int| 0 <= j < n && has_json_extension(#[trigger] names@[j]@) ==> taken@[j],
        decreases n - order@.len() + (if done { 0int } else { 1int }),
    {
        let mut best: Option<usize> = None;
        for i in 0..n
            invariant
                n == names@.len(),
                taken@.len() == n,
                match best {
                    Some(b) => b < n && has_json_extension(names@[b as int]@) && !taken@[b as int]
                        && forall|j: int| 0 <= j < i && has_json_extension(#[trigger] names@[j]@) && !taken@[j]
                            ==> text_le(names@[b as int]@, names@[j]@),
                    None => forall|j: int| 0 <= j < i ==> !(has_json_extension(#[trigger] names@[j]@) && !taken@[j]),
                },
        {
            if !taken[i] && is_spool_entry(names[i].as_str()) {
                match best {
                    None => {
                        proof {
                            lemma_text_le_total(names@[i as int]@, names@[i as int]@);
                        }
                        best = Some(i);
                    },
                    Some(b) => {
                        if !text_at_or_before(names[b].as_str(), names[i].as_str()) {
                            proof {
                                lemma_text_le_total(names@[b as int]@, names@[i as int]@);
                                assert forall|j: int| 0 <= j < i + 1 && has_json_extension(#[trigger] names@[j]@) && !taken@[j]
                                    implies text_le(names@[i as int]@, names@[j]@) by {
                                    if j < i {
                                        lemma_text_le_transitive(names@[i as int]@, names@[b as int]@, names@[j]@);
                                    } else {
                                        lemma_text_le_total(names@[i as int]@, names@[i as int]@);
                                    }
                                }
                            }
                            best = Some(i);
                        }
                    },
                }
            }
        }
        match best {
            None => {
                done = true;
            },
            Some(b) => {
                proof {
                    assert(!order@.contains(b));
                    if order@.len() > 0 {
                        assert forall|t: int, u: int| 0 <= t < u < order@.len() + 1 implies text_le(
                            #[trigger] names@[order@.push(b)[t] as int]@,
                            #[trigger] names@[order@.push(b)[u] as int]@,
                        ) by {
                            if u == order@.len() {
                                if t < order@.len() - 1 {
                                    lemma_text_le_transitive(
                                        names@[order@[t] as int]@,
                                        names@[order@.last() as int]@,
                                        names@[b as int]@,
                                    );
                                }
                            }
                        }
                    }
                    assert(!taken@[b as int]);
                    lemma_distinct_bounded(order@, n as int, b as int);
                }
                let ghost old_order = order@;
                taken.set(b, true);
                order.push(b);
                proof {
                    assert forall|i: int| 0 <= i < n implies (#[trigger] taken@[i] <==> order@.contains(i as usize)) by {
                        if i == b {
                            assert(order@[order@.len() - 1] == i as usize);
                        } else {
                            if order@.contains(i as usize) {
                                let t = choose|t: int| 0 <= t < order@.len() && order@[t] == i as usize;
                                assert(old_order[t] == i as usize);
                            }
                            if old_order.contains(i as usize) {
                                let t = choose|t: int| 0 <= t < old_order.len() && old_order[t] == i as usize;
                                assert(order@[t] == i as usize);
                            }
                        }
                    }
                    assert forall|t: int, u: int| 0 <= t < u < order@.len() implies #[trigger] order@[t] != #[trigger] order@[u] by {
                        if u == order@.len() - 1 {
                            assert(old_order.contains(old_order[t]));
                        }
                    }
                }
            },
        }
    }
    order
}

/// Distinct positions below `n` that leave one position out are fewer than `n`.
proof fn lemma_distinct_bounded(s: Seq<usize>, n: int, b: int)
    requires
        forall|t: int| 0 <= t < s.len() ==> (#[trigger] s[t]) < n,
        forall|t: int, u: int| 0 <= t < u < s.len() ==> #[trigger] s[t] != #[trigger] s[u],
        0 <= b < n,
        !s.contains(b as usize),
    ensures
        s.len() < n,
{
    let si = s.map_values(|x: usize| x as int);
    assert forall|t: int, u: int| 0 <= t < si.len() && 0 <= u < si.len() && t != u implies si[t] != si[u] by {
        if t < u {
            assert(s[t] != s[u]);
        } else {
            assert(s[u] != s[t]);
        }
    }
    assert(si.no_duplicates());
    si.unique_seq_to_set();
    vstd::set_lib::lemma_int_range(0, n);
    let range = vstd::set_lib::set_int_range(0, n).remove(b);
    assert forall|x: int| si.to_set().contains(x) implies range.contains(x) by {
        let t = choose|t: int| 0 <= t < si.len() && si[t] == x;
        assert(s[t] < n);
        if x == b {
            assert(s[t] == b as usize);
            assert(s.contains(b as usize));
        }
    }
    assert(vstd::set_lib::set_int_range(0, n).contains(b));
    vstd::set_lib::lemma_len_subset(si.to_set(), range);
}

} // verus!
