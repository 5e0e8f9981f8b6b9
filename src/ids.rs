use vstd::prelude::*;

verus! {

/// Identifier of one value (one node) of the dependency graph.
pub type AttributeValueId = u128;

/// Identifier of a component, the entity that owns attribute values.
pub type ComponentId = u128;

/// Identifier of a function.
pub type FuncId = u128;

/// The value of one Crockford base32 digit, upper or lower case; `I`, `L`, `O` and `U` are
/// not digits.
pub open spec fn base32_digit(c: char) -> Option<int> {
    let x = c as u32 as int;
    let u = if 97 <= x <= 122 { x - 32 } else { x };
    if 48 <= x <= 57 {
        Some(x - 48)
    } else if 65 <= u <= 72 {
        Some(u - 55)
    } else if u == 74 || u == 75 {
        Some(u - 56)
    } else if u == 77 || u == 78 {
        Some(u - 57)
    } else if 80 <= u <= 84 {
        Some(u - 58)
    } else if 86 <= u <= 90 {
        Some(u - 59)
    } else {
        None
    }
}

/// The first `n` digits of `s` read as a base-32 number, keeping the low 128 bits.
pub open spec fn base32_prefix_value(s: Seq<char>, n: nat) -> int
    decreases n,
{
    if n == 0 || n > s.len() {
        0
    } else {
        let d = match base32_digit(s[n - 1]) {
            Some(v) => v,
            None => 0,
        };
        (base32_prefix_value(s, (n - 1) as nat) * 32 + d) % (u128::MAX as int + 1)
    }
}

/// The identifier that the text `s` spells: exactly 26 base32 digits, read as a number whose
/// high bits beyond 128 are dropped.
pub open spec fn ulid_value(s: Seq<char>) -> Option<u128> {
    if s.len() == 26 && forall|i: int| 0 <= i < 26 ==> (#[trigger] base32_digit(s[i])) is Some {
        Some(base32_prefix_value(s, 26) as u128)
    } else {
        None
    }
}

/// Relies on `ulid::Ulid::from_string`: it rejects text whose byte length is not 26, maps
/// each byte through a table of the base32 digits (both cases; every other byte, and every
/// byte of a non-ASCII character, is rejected), and shifts each digit in, five bits at a time,
/// into a `u128`. Text of 26 characters that are all digits is 26 bytes long; any other text
/// has another byte length or holds a rejected byte.
#[verifier::external_body]
fn decode_ulid(s: &str) -> (r: Option<u128>)
    ensures
        r == ulid_value(s@),
{
    ulid::Ulid::from_string(s).ok().map(|u| u.0)
}

/// Parses the textual form of an identifier.
pub fn parse_id(s: &str) -> (r: Option<u128>)
    ensures
        r == ulid_value(s@),
        s@.len() != 26 ==> r is None,
{
    decode_ulid(s)
}

} // verus!

verus! {

broadcast use {vstd::seq_lib::lemma_seq_contains_after_push, vstd::seq_lib::lemma_seq_concat_contains_all_elements};

/// Whether `ids` holds `id`.
pub fn contains_id(ids: &Vec<u128>, id: u128) -> (r: bool)
    ensures
        r == ids@.contains(id),
{
    let mut i: usize = 0;
    while i < ids.len()
        invariant
            0 <= i <= ids@.len(),
            forall|j: int| 0 <= j < i ==> ids@[j] != id,
        decreases ids@.len() - i,
    {
        if ids[i] == id {
            return true;
        }
        i = i + 1;
    }
    false
}

/// Copies `ids`, keeping each value once, in order of first appearance.
pub fn dedup_ids(ids: &Vec<u128>) -> (r: Vec<u128>)
    ensures
        r@.no_duplicates(),
        r@.to_set() == ids@.to_set(),
{
    let mut out: Vec<u128> = Vec::new();
    let mut i: usize = 0;
    while i < ids.len()
        invariant
            0 <= i <= ids@.len(),
            out@.no_duplicates(),
            forall|x: u128| out@.contains(x) <==> ids@.subrange(0, i as int).contains(x),
        decreases ids@.len() - i,
    {
        let x = ids[i];
        if !contains_id(&out, x) {
            out.push(x);
        }
        proof {
            assert(ids@.subrange(0, i + 1) == ids@.subrange(0, i as int).push(x));
        }
        i = i + 1;
    }
    proof {
        assert(ids@.subrange(0, ids@.len() as int) == ids@);
        assert(out@.to_set() =~= ids@.to_set());
    }
    out
}

/// Moves the members of `ids` that are in `from` over to `to`, and returns them.
pub(crate) fn move_ids(
    from: &mut Vec<u128>,
    to: &mut Vec<u128>,
    ids: &Vec<u128>,
) -> (moved: Vec<u128>)
    requires
        old(from)@.no_duplicates(),
        old(to)@.no_duplicates(),
        old(from)@.to_set().disjoint(old(to)@.to_set()),
    ensures
        final(from)@.no_duplicates(),
        final(to)@.no_duplicates(),
        moved@.no_duplicates(),
        final(from)@.to_set() == old(from)@.to_set().difference(ids@.to_set()),
        final(to)@.to_set() == old(to)@.to_set().union(moved@.to_set()),
        moved@.to_set() == old(from)@.to_set().intersect(ids@.to_set()),
{
    let mut kept: Vec<u128> = Vec::new();
    let mut moved: Vec<u128> = Vec::new();
    let mut i: usize = 0;
    while i < from.len()
        invariant
            from@ == old(from)@,
            from@.no_duplicates(),
            0 <= i <= from@.len(),
            kept@.no_duplicates(),
            moved@.no_duplicates(),
            forall|x: u128| kept@.contains(x) <==> (from@.subrange(0, i as int).contains(x) && !ids@.contains(x)),
            forall|x: u128| moved@.contains(x) <==> (from@.subrange(0, i as int).contains(x) && ids@.contains(x)),
        decreases from@.len() - i,
    {
        let x = from[i];
        proof {
            assert(!from@.subrange(0, i as int).contains(x)) by {
                if from@.subrange(0, i as int).contains(x) {
                    let j = choose|j: int| 0 <= j < i && from@.subrange(0, i as int)[j] == x;
                    assert(from@[j] == from@[i as int]);
                }
            }
            assert(from@.subrange(0, i + 1) == from@.subrange(0, i as int).push(x));
        }
        if contains_id(ids, x) {
            moved.push(x);
        } else {
            kept.push(x);
        }
        i = i + 1;
    }
    proof {
        assert(from@.subrange(0, from@.len() as int) == from@);
    }
    let ghost before_to = to@;
    proof {
        assert forall|x: u128| moved@.contains(x) implies !before_to.contains(x) by {
            assert(from@.to_set().contains(x));
            assert(!old(to)@.to_set().contains(x));
        }
    }
    let mut t: usize = 0;
    while t < moved.len()
        invariant
            0 <= t <= moved@.len(),
            moved@.no_duplicates(),
            to@ == before_to + moved@.subrange(0, t as int),
            to@.no_duplicates(),
            before_to == old(to)@,
            forall|x: u128| moved@.contains(x) ==> !before_to.contains(x),
        decreases moved@.len() - t,
    {
        let x = moved[t];
        proof {
            assert(!to@.contains(x)) by {
                if moved@.subrange(0, t as int).contains(x) {
                    let j = choose|j: int| 0 <= j < t && moved@.subrange(0, t as int)[j] == x;
                    assert(moved@[j] == moved@[t as int]);
                }
                assert(moved@.contains(x));
            }
        }
        to.push(x);
        proof {
            assert(to@ =~= before_to + moved@.subrange(0, t + 1));
        }
        t = t + 1;
    }
    proof {
        assert(moved@.subrange(0, moved@.len() as int) =~= moved@);
        assert(to@.to_set() =~= old(to)@.to_set().union(moved@.to_set()));
        assert(kept@.to_set() =~= old(from)@.to_set().difference(ids@.to_set()));
        assert(moved@.to_set() =~= old(from)@.to_set().intersect(ids@.to_set()));
    }
    *from = kept;
    moved
}

/// The members of `ids` that are in `keep`, each at its first occurrence, in the order of `ids`.
pub open spec fn first_members(ids: Seq<u128>, keep: Set<u128>) -> Seq<u128>
    decreases ids.len(),
{
    if ids.len() == 0 {
        Seq::empty()
    } else {
        let p = first_members(ids.drop_last(), keep);
        let x = ids.last();
        if keep.contains(x) && !p.contains(x) {
            p.push(x)
        } else {
            p
        }
    }
}

/// The selection holds each member of `ids` that is in `keep`, once.
pub proof fn lemma_first_members(ids: Seq<u128>, keep: Set<u128>)
    ensures
        first_members(ids, keep).no_duplicates(),
        forall|x: u128| #[trigger] first_members(ids, keep).contains(x) <==> ids.contains(x) && keep.contains(x),
    decreases ids.len(),
{
    if ids.len() > 0 {
        let rest = ids.drop_last();
        lemma_first_members(rest, keep);
        assert forall|x: u128| ids.contains(x) <==> rest.contains(x) || ids.last() == x by {
            if ids.contains(x) {
                let j = choose|j: int| 0 <= j < ids.len() && ids[j] == x;
                if j < ids.len() - 1 {
                    assert(rest[j] == x);
                }
            }
            if rest.contains(x) {
                let j = choose|j: int| 0 <= j < rest.len() && rest[j] == x;
                assert(ids[j] == x);
            }
            if ids.last() == x {
                assert(ids[ids.len() - 1] == x);
            }
        }
    }
}

/// The members of `ids` that are in `keep`, each once, in the order of `ids`.
pub(crate) fn select_in_order(ids: &Vec<u128>, keep: &Vec<u128>) -> (r: Vec<u128>)
    ensures
        r@ == first_members(ids@, keep@.to_set()),
{
    let mut out: Vec<u128> = Vec::new();
    let mut i: usize = 0;
    while i < ids.len()
        invariant
            0 <= i <= ids@.len(),
            out@ == first_members(ids@.subrange(0, i as int), keep@.to_set()),
        decreases ids@.len() - i,
    {
        let x = ids[i];
        proof {
            assert(ids@.subrange(0, i + 1).drop_last() =~= ids@.subrange(0, i as int));
            assert(ids@.subrange(0, i + 1).last() == x);
        }
        if contains_id(keep, x) && !contains_id(&out, x) {
            out.push(x);
        }
        i = i + 1;
    }
    proof {
        assert(ids@.subrange(0, ids@.len() as int) =~= ids@);
    }
    out
}

} // verus!
