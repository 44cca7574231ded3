//! The gene encoder: dense integer ids for gene names.
//!
//! An ordered sequence of gene-name strings is mapped to a name arena
//! (id to name, in first-seen order) and a membership vector (guide index
//! to id). Ids are contiguous from 0, assigned in first-seen order, and
//! decoding the membership through the arena recovers exactly the input
//! names. The encoder also derives the distinct guide-group sizes, the
//! per-gene key selections, and the location of the non-targeting-control
//! pseudo-gene.

use vstd::prelude::*;
use crate::text::{contains_seq, str_contains};

verus! {

/// The distinct name views of `gs`, in first-seen order.
pub open spec fn seen(gs: Seq<Seq<char>>) -> Seq<Seq<char>>
    decreases gs.len(),
{
    if gs.len() == 0 {
        Seq::empty()
    } else {
        let p = seen(gs.drop_last());
        if p.contains(gs.last()) {
            p
        } else {
            p.push(gs.last())
        }
    }
}

/// The views of a string sequence.
pub open spec fn views_of(names: Seq<String>) -> Seq<Seq<char>> {
    Seq::new(names.len(), |i: int| names[i]@)
}

/// Encode gene names as dense ids: the name arena (id to name, distinct,
/// in first-seen order) and the membership vector (guide index to id).
/// Decoding every membership entry through the arena recovers the input
/// name, so the two outputs pin each other: the arena is exactly the
/// first-seen distinct names, and each membership entry is the unique
/// arena index carrying the guide's name.
pub fn encode_index(genes: &Vec<String>) -> (r: (Vec<String>, Vec<usize>))
    ensures
        views_of(r.0@) == seen(views_of(genes@)),
        r.1@.len() == genes@.len(),
        forall|i: int| 0 <= i < genes@.len() ==> #[trigger] r.1@[i] < r.0@.len(),
        forall|i: int|
            0 <= i < genes@.len() ==> r.0@[#[trigger] r.1@[i] as int]@ == genes@[i]@,
        forall|a: int, b: int|
            0 <= a < b < r.0@.len() ==> r.0@[a]@ != r.0@[b]@,
        r.0@.len() <= genes@.len(),
{
    let mut arena: Vec<String> = Vec::new();
    let mut membership: Vec<usize> = Vec::new();
    let mut i: usize = 0;
    while i < genes.len()
        invariant
            i <= genes@.len(),
            views_of(arena@) == seen(views_of(genes@.take(i as int))),
            membership@.len() == i,
            forall|k: int| 0 <= k < i ==> #[trigger] membership@[k] < arena@.len(),
            forall|k: int|
                0 <= k < i ==> arena@[#[trigger] membership@[k] as int]@ == genes@[k]@,
            forall|a: int, b: int|
                0 <= a < b < arena@.len() ==> arena@[a]@ != arena@[b]@,
            arena@.len() <= i,
        decreases genes@.len() - i,
    {
        let ghost old_arena = arena@;
        proof {
            assert(views_of(genes@.take(i as int + 1)).drop_last()
                =~= views_of(genes@.take(i as int)));
            assert(views_of(genes@.take(i as int + 1)).last() == genes@[i as int]@);
        }
        let mut found: Option<usize> = None;
        let mut j: usize = 0;
        while j < arena.len() && found.is_none()
            invariant
                j <= arena@.len(),
                i < genes@.len(),
                found is None ==> forall|k: int| 0 <= k < j ==> arena@[k]@ != genes@[i as int]@,
                found matches Some(f) ==> f < arena@.len() && arena@[f as int]@ == genes@[i as int]@,
            decreases arena@.len() - j,
        {
            if arena[j].eq(&genes[i]) {
                found = Some(j);
            }
            j = j + 1;
        }
        proof {
            assert(found is None ==> forall|k: int|
                0 <= k < arena@.len() ==> arena@[k]@ != genes@[i as int]@);
        }
        match found {
            Some(f) => {
                proof {
                    assert(views_of(old_arena).contains(genes@[i as int]@)) by {
                        assert(views_of(old_arena)[f as int] == old_arena[f as int]@);
                    }
                    assert(views_of(arena@) =~= seen(views_of(genes@.take(i as int + 1))));
                }
                membership.push(f);
            },
            None => {
                proof {
                    assert(!views_of(old_arena).contains(genes@[i as int]@)) by {
                        if views_of(old_arena).contains(genes@[i as int]@) {
                            let w = choose|w: int|
                                0 <= w < old_arena.len()
                                    && views_of(old_arena)[w] == genes@[i as int]@;
                            assert(old_arena[w]@ == genes@[i as int]@);
                        }
                    }
                }
                let id = arena.len();
                arena.push(genes[i].clone());
                membership.push(id);
                proof {
                    assert(views_of(arena@)
                        =~= views_of(old_arena).push(genes@[i as int]@));
                    assert(views_of(arena@) =~= seen(views_of(genes@.take(i as int + 1))));
                    assert forall|a: int, b: int|
                        0 <= a < b < arena@.len() implies arena@[a]@ != arena@[b]@ by {
                        if b == arena@.len() - 1 {
                            assert(views_of(old_arena)[a] == old_arena[a]@);
                        }
                    }
                }
            },
        }
        i = i + 1;
    }
    proof {
        assert(genes@.take(genes@.len() as int) =~= genes@);
    }
    (arena, membership)
}

/// How many distinct names the sequence holds.
pub fn num_unique(names: &Vec<String>) -> (n: usize)
    ensures
        n == seen(views_of(names@)).len(),
{
    let (arena, _membership) = encode_index(names);
    proof {
        assert(views_of(arena@).len() == arena@.len());
    }
    arena.len()
}

/// The keys at the positions whose first `n` membership entries equal `g`.
pub open spec fn selected_upto(enc: Seq<usize>, vals: Seq<u64>, g: usize, n: int) -> Seq<u64>
    decreases n,
{
    if n <= 0 {
        Seq::empty()
    } else {
        selected_upto(enc, vals, g, n - 1) + (if enc[n - 1] == g {
            seq![vals[n - 1]]
        } else {
            Seq::empty()
        })
    }
}

/// The keys of the guides belonging to gene id `g`, in guide order.
pub open spec fn selected(enc: Seq<usize>, vals: Seq<u64>, g: usize) -> Seq<u64> {
    selected_upto(enc, vals, g, enc.len() as int)
}

/// Select the keys of the guides whose membership entry is `g`, in order.
pub fn select_ranks(g: usize, enc: &Vec<usize>, keys: &Vec<u64>) -> (r: Vec<u64>)
    requires
        enc@.len() == keys@.len(),
    ensures
        r@ == selected(enc@, keys@, g),
{
    let mut r: Vec<u64> = Vec::new();
    let mut i: usize = 0;
    while i < enc.len()
        invariant
            i <= enc@.len(),
            enc@.len() == keys@.len(),
            r@ == selected_upto(enc@, keys@, g, i as int),
        decreases enc@.len() - i,
    {
        if enc[i] == g {
            r.push(keys[i]);
            proof {
                assert(r@ =~= selected_upto(enc@, keys@, g, i as int + 1));
            }
        } else {
            proof {
                assert(r@ =~= selected_upto(enc@, keys@, g, i as int + 1));
            }
        }
        i = i + 1;
    }
    r
}

/// How many entries of `s` equal `g`.
pub open spec fn count_val(s: Seq<usize>, g: usize) -> nat
    decreases s.len(),
{
    if s.len() == 0 {
        0
    } else {
        count_val(s.drop_last(), g) + (if s.last() == g {
            1nat
        } else {
            0nat
        })
    }
}

/// How many entries of `enc` equal `g`, counted in exec code.
pub fn count_val_exec(enc: &Vec<usize>, g: usize) -> (c: usize)
    ensures
        c == count_val(enc@, g),
{
    let mut c: usize = 0;
    let mut i: usize = 0;
    while i < enc.len()
        invariant
            i <= enc@.len(),
            c == count_val(enc@.take(i as int), g),
            c <= i,
        decreases enc@.len() - i,
    {
        proof {
            assert(enc@.take(i as int + 1).drop_last() =~= enc@.take(i as int));
        }
        if enc[i] == g {
            c = c + 1;
        }
        i = i + 1;
    }
    proof {
        assert(enc@.take(enc@.len() as int) =~= enc@);
    }
    c
}

/// Is `c` the guide count of some gene id present in `enc`?
pub open spec fn is_group_size(enc: Seq<usize>, c: usize) -> bool {
    exists|g: usize| enc.contains(g) && count_val(enc, g) == c
}

fn vec_contains(v: &Vec<usize>, x: usize) -> (r: bool)
    ensures
        r == v@.contains(x),
{
    let mut i: usize = 0;
    while i < v.len()
        invariant
            i <= v@.len(),
            forall|k: int| 0 <= k < i ==> v@[k] != x,
        decreases v@.len() - i,
    {
        if v[i] == x {
            return true;
        }
        i = i + 1;
    }
    false
}

/// The distinct group cardinalities over all gene ids present in the
/// membership vector: every present id's guide count appears exactly once,
/// in no particular order.
pub fn group_sizes(enc: &Vec<usize>) -> (r: Vec<usize>)
    ensures
        forall|a: int, b: int| 0 <= a < b < r@.len() ==> r@[a] != r@[b],
        forall|g: usize| enc@.contains(g) ==> r@.contains(count_val(enc@, g) as usize),
        forall|t: int| 0 <= t < r@.len() ==> is_group_size(enc@, #[trigger] r@[t]),
{
    let mut r: Vec<usize> = Vec::new();
    let mut i: usize = 0;
    while i < enc.len()
        invariant
            i <= enc@.len(),
            forall|a: int, b: int| 0 <= a < b < r@.len() ==> r@[a] != r@[b],
            forall|g: usize|
                enc@.take(i as int).contains(g)
                    ==> r@.contains(count_val(enc@, g) as usize),
            forall|t: int| 0 <= t < r@.len() ==> is_group_size(enc@, #[trigger] r@[t]),
        decreases enc@.len() - i,
    {
        let ghost old_r = r@;
        let g = enc[i];
        proof {
            lemma_count_val_le_len(enc@, g);
        }
        let c = count_val_exec(enc, g);
        if !vec_contains(&r, c) {
            r.push(c);
            proof {
                assert(enc@.contains(g)) by {
                    assert(enc@[i as int] == g);
                }
                assert(r@[r@.len() - 1] == c);
                assert(r@.contains(c)) by {
                    assert(r@[r@.len() - 1] == c);
                }
                assert forall|t: int| 0 <= t < r@.len() implies is_group_size(
                    enc@,
                    #[trigger] r@[t],
                ) by {
                    if t < old_r.len() {
                        assert(old_r[t] == r@[t]);
                    } else {
                        assert(enc@.contains(g) && count_val(enc@, g) == r@[t]);
                        assert(is_group_size(enc@, r@[t]));
                    }
                }
            }
        }
        proof {
            assert(r@.contains(count_val(enc@, g) as usize)) by {
                if old_r.contains(count_val(enc@, g) as usize) {
                    let w = choose|w: int|
                        0 <= w < old_r.len() && old_r[w] == count_val(enc@, g) as usize;
                    assert(r@[w] == old_r[w]);
                }
            }
            assert forall|gg: usize| enc@.take(i as int + 1).contains(gg) implies r@.contains(
                count_val(enc@, gg) as usize,
            ) by {
                let w = choose|w: int|
                    0 <= w < i + 1 && #[trigger] enc@.take(i as int + 1)[w] == gg;
                if w < i {
                    assert(enc@.take(i as int)[w] == gg);
                    assert(enc@.take(i as int).contains(gg));
                    let v = choose|v: int|
                        0 <= v < old_r.len() && old_r[v] == count_val(enc@, gg) as usize;
                    assert(r@[v] == old_r[v]);
                } else {
                    assert(gg == g);
                }
            }
        }
        i = i + 1;
    }
    proof {
        assert(enc@.take(enc@.len() as int) =~= enc@);
    }
    r
}

proof fn lemma_count_val_le_len(s: Seq<usize>, g: usize)
    ensures
        count_val(s, g) <= s.len(),
    decreases s.len(),
{
    if s.len() > 0 {
        lemma_count_val_le_len(s.drop_last(), g);
    }
}

/// Why the non-targeting-control token failed to single out one gene.
#[derive(Clone, Copy, Debug, PartialEq, Eq)]
pub enum TokenError {
    /// No gene name contains the token.
    NotFound,
    /// More than one gene name contains the token.
    MultipleMatches,
}

/// How many of the first `n` names contain the token.
pub open spec fn match_count(names: Seq<String>, t: Seq<char>, n: int) -> nat
    decreases n,
{
    if n <= 0 {
        0
    } else {
        match_count(names, t, n - 1) + (if contains_seq(names[n - 1]@, t) {
            1nat
        } else {
            0nat
        })
    }
}

/// Locate the non-targeting-control pseudo-gene: the arena index of the
/// one gene name that contains the token. Fails if the token matches no
/// name or more than one, before any computation proceeds.
pub fn validate_token(arena: &Vec<String>, token: &str) -> (r: Result<usize, TokenError>)
    ensures
        r is Ok <==> match_count(arena@, token@, arena@.len() as int) == 1,
        r matches Ok(i) ==> i < arena@.len() && contains_seq(arena@[i as int]@, token@),
        r == Result::<usize, TokenError>::Err(TokenError::NotFound)
            <==> match_count(arena@, token@, arena@.len() as int) == 0,
        r == Result::<usize, TokenError>::Err(TokenError::MultipleMatches)
            <==> match_count(arena@, token@, arena@.len() as int) >= 2,
{
    let mut count: usize = 0;
    let mut first: usize = 0;
    let mut i: usize = 0;
    while i < arena.len()
        invariant
            i <= arena@.len(),
            count == match_count(arena@, token@, i as int),
            count <= i,
            count >= 1 ==> first < i && contains_seq(arena@[first as int]@, token@),
        decreases arena@.len() - i,
    {
        if str_contains(arena[i].as_str(), token) {
            if count == 0 {
                first = i;
            }
            count = count + 1;
        }
        i = i + 1;
    }
    if count == 0 {
        Err(TokenError::NotFound)
    } else if count == 1 {
        Ok(first)
    } else {
        Err(TokenError::MultipleMatches)
    }
}

} // verus!
