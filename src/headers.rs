//! Header maps: the field names and values of requests, responses and
//! trailers, kept in `http::HeaderMap` and described here by what they hold.

use vstd::prelude::*;

verus! {

#[verifier::external_type_specification]
#[verifier::external_body]
#[verifier::reject_recursive_types(T)]
pub struct ExHeaderMap<T>(http::HeaderMap<T>);

#[verifier::external_type_specification]
#[verifier::external_body]
pub struct ExHeaderValue(http::HeaderValue);

/// A field name and its values, in the order they were added.
pub type FieldGroup = (Seq<u8>, Seq<Seq<u8>>);

/// What a header map holds: each distinct field name, in the order it was
/// first added, with its values in the order they were added.
pub uninterp spec fn header_groups(h: http::HeaderMap) -> Seq<FieldGroup>;

/// A byte that may stand in a field name (an HTTP token character).
pub open spec fn is_token_byte(b: u8) -> bool {
    (0x30 <= b && b <= 0x39) || (0x41 <= b && b <= 0x5a) || (0x61 <= b && b <= 0x7a) || b
        == 0x21 || b == 0x23 || b == 0x24 || b == 0x25 || b == 0x26 || b == 0x27 || b == 0x2a
        || b == 0x2b || b == 0x2d || b == 0x2e || b == 0x5e || b == 0x5f || b == 0x60 || b
        == 0x7c || b == 0x7e
}

pub open spec fn lower_byte(b: u8) -> u8 {
    if 0x41 <= b && b <= 0x5a {
        (b + 0x20) as u8
    } else {
        b
    }
}

/// The longest field name a header map takes.
pub const MAX_FIELD_NAME_LEN: usize = 65535;

/// The normalised (lower-case) form of a field name, or `None` where the
/// bytes are no field name.
pub open spec fn field_name_spec(b: Seq<u8>) -> Option<Seq<u8>> {
    if 0 < b.len() <= MAX_FIELD_NAME_LEN && forall|i: int|
        0 <= i < b.len() ==> #[trigger] is_token_byte(b[i]) {
        Some(b.map_values(|c: u8| lower_byte(c)))
    } else {
        None
    }
}

/// Whether the bytes may stand as a field value: no control byte but tab.
pub open spec fn field_value_valid(v: Seq<u8>) -> bool {
    forall|i: int| 0 <= i < v.len() ==> ((#[trigger] v[i] >= 32 && v[i] != 127) || v[i] == 9)
}

/// The position of the group named `name`, or -1 where there is none.
pub open spec fn group_index(g: Seq<FieldGroup>, name: Seq<u8>) -> int
    decreases g.len(),
{
    if g.len() == 0 {
        -1
    } else {
        let i = group_index(g.drop_last(), name);
        if i >= 0 {
            i
        } else if g.last().0 == name {
            g.len() - 1
        } else {
            -1
        }
    }
}

/// The groups after the value `v` is added under `name`.
pub open spec fn append_spec(g: Seq<FieldGroup>, name: Seq<u8>, v: Seq<u8>) -> Seq<FieldGroup> {
    let i = group_index(g, name);
    if i >= 0 {
        g.update(i, (name, g[i].1.push(v)))
    } else {
        g.push((name, seq![v]))
    }
}

/// The first value under `name`, if any.
pub open spec fn get_spec(g: Seq<FieldGroup>, name: Seq<u8>) -> Option<Seq<u8>> {
    let i = group_index(g, name);
    if i >= 0 && g[i].1.len() > 0 {
        Some(g[i].1[0])
    } else {
        None
    }
}

/// The (name, value) pairs of the groups, in the order a header map yields
/// them: group by group, each value of a group in turn.
pub open spec fn flatten(g: Seq<FieldGroup>) -> Seq<(Seq<u8>, Seq<u8>)>
    decreases g.len(),
{
    if g.len() == 0 {
        seq![]
    } else {
        let (name, vals) = g.last();
        flatten(g.drop_last()) + vals.map_values(|v: Seq<u8>| (name, v))
    }
}

/// The name of the `Content-Length` field, normalised.
pub open spec fn content_length_name() -> Seq<u8> {
    seq![0x63u8, 0x6f, 0x6e, 0x74, 0x65, 0x6e, 0x74, 0x2d, 0x6c, 0x65, 0x6e, 0x67, 0x74, 0x68]
}

/// The views of a list of (name, value) byte pairs.
pub open spec fn pairs_view(v: Seq<(Vec<u8>, Vec<u8>)>) -> Seq<(Seq<u8>, Seq<u8>)> {
    v.map_values(|p: (Vec<u8>, Vec<u8>)| (p.0@, p.1@))
}

/// The most distinct field names a header map built here holds. Below it
/// `http::HeaderMap` always has room for one more name; from 6554 names on,
/// a map whose hashing has degraded may need to grow past its largest table
/// (32768 slots), where `append` panics. Filling a map from the host's
/// fields stops with an error at this bound instead.
pub const MAX_FIELD_NAMES: usize = 6554;

/// The reasons a field is refused.
#[derive(Clone, Debug, PartialEq, Eq)]
pub enum FieldError {
    /// The name given is no field name.
    InvalidName(Vec<u8>),
    /// The value under the name given holds a forbidden byte.
    InvalidValue(Vec<u8>),
    /// The map already holds as many distinct names as it takes.
    TooManyNames,
}

/// Which part of a field a header map refused.
#[derive(Clone, Copy, Debug, PartialEq, Eq, Structural)]
pub enum FieldRefusal {
    Name,
    Value,
}

pub type FieldResult = Result<(), FieldRefusal>;

/// Relies on `http::HeaderMap::new`, which makes an empty map.
#[verifier::external_body]
pub(crate) fn header_map_new() -> (r: http::HeaderMap)
    ensures
        header_groups(r) == Seq::<FieldGroup>::empty(),
{
    http::HeaderMap::new()
}

/// Relies on `http::HeaderName::from_bytes` and `http::HeaderValue::from_bytes`
/// to check and normalise the name and value, and on `http::HeaderMap::append`,
/// which adds the value after any others under that name (and, below
/// `MAX_FIELD_NAMES` names, always finds room for a new one).
#[verifier::external_body]
pub(crate) fn header_map_append(h: &mut http::HeaderMap, name: &[u8], value: &[u8]) -> (r:
    FieldResult)
    requires
        header_groups(*old(h)).len() < MAX_FIELD_NAMES,
    ensures
        field_name_spec(name@).is_none() ==> r == FieldResult::Err(FieldRefusal::Name)
            && header_groups(*final(h)) == header_groups(*old(h)),
        field_name_spec(name@).is_some() && !field_value_valid(value@) ==> r == FieldResult::Err(FieldRefusal::Value) && header_groups(*final(h)) == header_groups(*old(h)),
        field_name_spec(name@).is_some() && field_value_valid(value@) ==> r == FieldResult::Ok(())
            && header_groups(*final(h)) == append_spec(
            header_groups(*old(h)),
            field_name_spec(name@).unwrap(),
            value@,
        ),
{
    let n = http::HeaderName::from_bytes(name).map_err(|_| FieldRefusal::Name)?;
    let v = http::HeaderValue::from_bytes(value).map_err(|_| FieldRefusal::Value)?;
    h.append(n, v);
    Ok(())
}

/// Relies on `http::HeaderMap::get` with the `Content-Length` name, which
/// gives the first value under that name, read back as bytes.
#[verifier::external_body]
pub(crate) fn header_map_content_length(h: &http::HeaderMap) -> (r: Option<Vec<u8>>)
    ensures
        r.is_some() == get_spec(header_groups(*h), content_length_name()).is_some(),
        r.is_some() ==> r.unwrap()@ == get_spec(header_groups(*h), content_length_name()).unwrap(),
{
    h.get(http::header::CONTENT_LENGTH).map(|v| v.as_bytes().to_vec())
}

/// Relies on `http::HeaderMap::keys_len`, the number of distinct names.
#[verifier::external_body]
pub(crate) fn header_map_keys_len(h: &http::HeaderMap) -> (r: usize)
    ensures
        r == header_groups(*h).len(),
{
    h.keys_len()
}

/// Relies on `http::HeaderMap::iter`, which yields every (name, value) pair,
/// name by name in the order the names were added, the values of a name in
/// the order they were added; read back as bytes.
#[verifier::external_body]
pub(crate) fn header_map_pairs(h: &http::HeaderMap) -> (r: Vec<(Vec<u8>, Vec<u8>)>)
    ensures
        pairs_view(r@) == flatten(header_groups(*h)),
{
    h.iter().map(|(k, v)| (k.as_str().as_bytes().to_vec(), v.as_bytes().to_vec())).collect()
}

/// Whether a (name, value) pair would be taken into a header map.
pub open spec fn pair_ok(p: (Seq<u8>, Seq<u8>)) -> bool {
    field_name_spec(p.0).is_some() && field_value_valid(p.1)
}

/// The position of the first pair a header map refuses, or -1 where it
/// takes them all.
pub open spec fn first_refused(p: Seq<(Seq<u8>, Seq<u8>)>) -> int
    decreases p.len(),
{
    if p.len() == 0 {
        -1
    } else {
        let j = first_refused(p.drop_last());
        if j >= 0 {
            j
        } else if !pair_ok(p.last()) {
            p.len() - 1
        } else {
            -1
        }
    }
}

/// The groups of a header map filled with the pairs, in order.
pub open spec fn groups_of_pairs(p: Seq<(Seq<u8>, Seq<u8>)>) -> Seq<FieldGroup>
    decreases p.len(),
{
    if p.len() == 0 {
        seq![]
    } else {
        append_spec(groups_of_pairs(p.drop_last()), field_name_spec(p.last().0).unwrap(), p.last().1)
    }
}

proof fn lemma_group_index_bounds(g: Seq<FieldGroup>, name: Seq<u8>)
    ensures
        -1 <= group_index(g, name) < g.len(),
        group_index(g, name) >= 0 ==> g[group_index(g, name)].0 == name,
        group_index(g, name) < 0 ==> forall|k: int| 0 <= k < g.len() ==> (#[trigger] g[k]).0 != name,
    decreases g.len(),
{
    if g.len() > 0 {
        lemma_group_index_bounds(g.drop_last(), name);
        assert forall|k: int| 0 <= k < g.len() - 1 implies #[trigger] g[k] == g.drop_last()[k] by {}
    }
}

/// What every header map holds: distinct, normalised names, each with at
/// least one value, every value valid.
pub open spec fn groups_wf(g: Seq<FieldGroup>) -> bool {
    &&& forall|a: int, b: int| 0 <= a < b < g.len() ==> (#[trigger] g[a]).0 != (#[trigger] g[b]).0
    &&& forall|k: int| 0 <= k < g.len() ==> field_name_spec((#[trigger] g[k]).0) == Some(g[k].0)
    &&& forall|k: int| 0 <= k < g.len() ==> (#[trigger] g[k]).1.len() > 0
    &&& forall|k: int, j: int| 0 <= k < g.len() && 0 <= j < g[k].1.len() ==> field_value_valid(
        #[trigger] g[k].1[j],
    )
}

pub(crate) proof fn lemma_group_index_absent(g: Seq<FieldGroup>, x: Seq<u8>)
    requires
        forall|k: int| 0 <= k < g.len() ==> (#[trigger] g[k]).0 != x,
    ensures
        group_index(g, x) == -1,
    decreases g.len(),
{
    if g.len() > 0 {
        assert forall|k: int| 0 <= k < g.len() - 1 implies (#[trigger] g.drop_last()[k]).0 != x by {
            assert(g.drop_last()[k] == g[k]);
        }
        lemma_group_index_absent(g.drop_last(), x);
    }
}

/// The pairs of one group, in order.
pub open spec fn group_pairs(name: Seq<u8>, vals: Seq<Seq<u8>>) -> Seq<(Seq<u8>, Seq<u8>)> {
    vals.map_values(|v: Seq<u8>| (name, v))
}

/// Filling a map that lacks `name` with the first `j` values of a group
/// makes that group its last.
proof fn lemma_groups_of_group(p: Seq<(Seq<u8>, Seq<u8>)>, g: Seq<FieldGroup>, name: Seq<u8>, vals: Seq<Seq<u8>>, j: int)
    requires
        groups_of_pairs(p) == g,
        forall|k: int| 0 <= k < g.len() ==> (#[trigger] g[k]).0 != name,
        field_name_spec(name) == Some(name),
        1 <= j <= vals.len(),
    ensures
        groups_of_pairs(p + group_pairs(name, vals.subrange(0, j))) == g.push((name, vals.subrange(0, j))),
    decreases j,
{
    let q = p + group_pairs(name, vals.subrange(0, j));
    assert(q.drop_last() =~= p + group_pairs(name, vals.subrange(0, j - 1)));
    assert(q.last() == (name, vals[j - 1]));
    if j == 1 {
        assert(p + group_pairs(name, vals.subrange(0, 0)) =~= p);
        lemma_group_index_absent(g, name);
        assert(vals.subrange(0, 1) =~= seq![vals[0]]);
    } else {
        lemma_groups_of_group(p, g, name, vals, j - 1);
        let g1 = g.push((name, vals.subrange(0, j - 1)));
        assert(g1.drop_last() =~= g);
        lemma_group_index_absent(g, name);
        assert(group_index(g1, name) == g.len());
        assert(vals.subrange(0, j - 1).push(vals[j - 1]) =~= vals.subrange(0, j));
        assert(g1.update(g.len() as int, (name, vals.subrange(0, j))) =~= g.push((name, vals.subrange(0, j))));
    }
}

/// Every pair a header map yields is taken back by a header map.
pub(crate) proof fn lemma_flatten_ok(g: Seq<FieldGroup>)
    requires
        groups_wf(g),
    ensures
        first_refused(flatten(g)) < 0,
    decreases g.len(),
{
    if g.len() > 0 {
        let h = g.drop_last();
        assert(groups_wf(h)) by {
            assert forall|k: int| 0 <= k < h.len() implies #[trigger] h[k] == g[k] by {}
        }
        lemma_flatten_ok(h);
        let (name, vals) = g.last();
        let tail = group_pairs(name, vals);
        assert forall|j: int| 0 <= j < tail.len() implies pair_ok(#[trigger] tail[j]) by {
            assert(g[g.len() - 1].1[j] == vals[j]);
        }
        lemma_first_refused_append(flatten(h), tail);
        assert(flatten(g) =~= flatten(h) + tail);
    }
}

pub(crate) proof fn lemma_first_refused_append(p: Seq<(Seq<u8>, Seq<u8>)>, q: Seq<(Seq<u8>, Seq<u8>)>)
    requires
        first_refused(p) < 0,
        forall|j: int| 0 <= j < q.len() ==> pair_ok(#[trigger] q[j]),
    ensures
        first_refused(p + q) < 0,
    decreases q.len(),
{
    if q.len() == 0 {
        assert(p + q =~= p);
    } else {
        let q1 = q.drop_last();
        assert forall|j: int| 0 <= j < q1.len() implies pair_ok(#[trigger] q1[j]) by {
            assert(q1[j] == q[j]);
        }
        lemma_first_refused_append(p, q1);
        assert((p + q).drop_last() =~= p + q1);
        assert(pair_ok(q[q.len() - 1]));
    }
}

/// A header map's fields, taken into a header map again, give back the same
/// map: names, their order, and each name's values in order.
pub proof fn lemma_fields_round_trip(h: http::HeaderMap)
    requires
        groups_wf(header_groups(h)),
    ensures
        first_refused(flatten(header_groups(h))) < 0,
        groups_of_pairs(flatten(header_groups(h))) == header_groups(h),
{
    lemma_flatten_ok(header_groups(h));
    lemma_groups_of_flatten(header_groups(h));
}

pub(crate) proof fn lemma_groups_of_flatten(g: Seq<FieldGroup>)
    requires
        groups_wf(g),
    ensures
        groups_of_pairs(flatten(g)) == g,
    decreases g.len(),
{
    if g.len() == 0 {
        assert(groups_of_pairs(flatten(g)) =~= g);
    } else {
        let h = g.drop_last();
        assert(groups_wf(h)) by {
            assert forall|k: int| 0 <= k < h.len() implies #[trigger] h[k] == g[k] by {}
        }
        lemma_groups_of_flatten(h);
        let (name, vals) = g.last();
        assert forall|k: int| 0 <= k < h.len() implies (#[trigger] h[k]).0 != name by {
            assert(h[k] == g[k]);
            assert(g[k].0 != g[g.len() - 1].0);
        }
        assert(field_name_spec(name) == Some(name)) by {
            assert(g[g.len() - 1] == (name, vals));
        }
        lemma_groups_of_group(flatten(h), h, name, vals, vals.len() as int);
        assert(vals.subrange(0, vals.len() as int) =~= vals);
        assert(flatten(g) =~= flatten(h) + group_pairs(name, vals));
        assert(h.push((name, vals)) =~= g);
    }
}

/// The position of the pair at which filling a header map stops, or -1
/// where it takes them all: the first pair that is refused, or that comes
/// when the map already holds `MAX_FIELD_NAMES` distinct names.
pub open spec fn fields_stop(p: Seq<(Seq<u8>, Seq<u8>)>) -> int
    decreases p.len(),
{
    if p.len() == 0 {
        -1
    } else {
        let j = fields_stop(p.drop_last());
        if j >= 0 {
            j
        } else if groups_of_pairs(p.drop_last()).len() >= MAX_FIELD_NAMES || !pair_ok(p.last()) {
            p.len() - 1
        } else {
            -1
        }
    }
}

/// Whether `e` is the error for the pair at which filling a map with `p`
/// stops: too many names where the map is full, else the refused part of
/// that pair, naming it.
pub open spec fn field_error_for(p: Seq<(Seq<u8>, Seq<u8>)>, e: FieldError) -> bool {
    let i = fields_stop(p);
    let name = p[i].0;
    if groups_of_pairs(p.subrange(0, i)).len() >= MAX_FIELD_NAMES {
        e is TooManyNames
    } else {
        match e {
            FieldError::InvalidName(n) => n@ == name && field_name_spec(name).is_none(),
            FieldError::InvalidValue(n) => n@ == name && field_name_spec(name).is_some()
                && !field_value_valid(p[i].1),
            FieldError::TooManyNames => false,
        }
    }
}

proof fn lemma_append_len_grows(g: Seq<FieldGroup>, name: Seq<u8>, v: Seq<u8>)
    ensures
        append_spec(g, name, v).len() >= g.len(),
{
    lemma_group_index_bounds(g, name);
}

proof fn lemma_groups_len_monotone(p: Seq<(Seq<u8>, Seq<u8>)>, i: int)
    requires
        0 <= i <= p.len(),
    ensures
        groups_of_pairs(p.subrange(0, i)).len() <= groups_of_pairs(p).len(),
    decreases p.len() - i,
{
    if i < p.len() {
        let q = p.subrange(0, i + 1);
        assert(q.drop_last() =~= p.subrange(0, i));
        lemma_append_len_grows(groups_of_pairs(p.subrange(0, i)), field_name_spec(q.last().0).unwrap(), q.last().1);
        lemma_groups_len_monotone(p, i + 1);
    } else {
        assert(p.subrange(0, i) =~= p);
    }
}

/// Where every pair is taken and the map ends with fewer than
/// `MAX_FIELD_NAMES` names, filling it never stops early.
pub proof fn lemma_fields_stop_small(p: Seq<(Seq<u8>, Seq<u8>)>)
    requires
        first_refused(p) < 0,
        groups_of_pairs(p).len() < MAX_FIELD_NAMES,
    ensures
        fields_stop(p) < 0,
    decreases p.len(),
{
    if p.len() > 0 {
        let q = p.drop_last();
        lemma_groups_len_monotone(p, p.len() - 1);
        assert(q =~= p.subrange(0, p.len() - 1));
        lemma_fields_stop_small(q);
    }
}

/// Where filling a map with the pairs before `i` does not stop, and it
/// stops at pair `i`, `i` is where it stops.
proof fn lemma_fields_stop_prefix(p: Seq<(Seq<u8>, Seq<u8>)>, i: int)
    requires
        0 <= i < p.len(),
        fields_stop(p.subrange(0, i)) < 0,
        groups_of_pairs(p.subrange(0, i)).len() >= MAX_FIELD_NAMES || !pair_ok(p[i]),
    ensures
        fields_stop(p) == i,
    decreases p.len(),
{
    if i == p.len() - 1 {
        assert(p.drop_last() =~= p.subrange(0, i));
    } else {
        assert(p.drop_last().subrange(0, i) =~= p.subrange(0, i));
        lemma_fields_stop_prefix(p.drop_last(), i);
    }
}

/// Builds a header map from (name, value) pairs as the host hands them over,
/// keeping their order and any repeated names. Filling stops, with an
/// error naming the pair, at the first pair refused, or that comes when the
/// map already holds `MAX_FIELD_NAMES` distinct names.
pub fn header_map_from_fields(entries: &Vec<(Vec<u8>, Vec<u8>)>) -> (r: Result<
    http::HeaderMap,
    FieldError,
>)
    ensures
        r.is_ok() <==> fields_stop(pairs_view(entries@)) < 0,
        r.is_ok() ==> header_groups(r.unwrap()) == groups_of_pairs(pairs_view(entries@)),
        r.is_err() ==> field_error_for(pairs_view(entries@), r.unwrap_err()),
{
    let ghost all = pairs_view(entries@);
    let mut h = header_map_new();
    let mut i: usize = 0;
    while i < entries.len()
        invariant
            i <= entries@.len(),
            all == pairs_view(entries@),
            fields_stop(all.subrange(0, i as int)) < 0,
            header_groups(h) == groups_of_pairs(all.subrange(0, i as int)),
        decreases entries@.len() - i,
    {
        let ghost pre = all.subrange(0, i as int);
        let ghost next = all.subrange(0, i + 1);
        assert(next.drop_last() =~= pre);
        assert(next.last() == (entries@[i as int].0@, entries@[i as int].1@));
        assert(all[i as int] == next.last());
        if header_map_keys_len(&h) >= MAX_FIELD_NAMES {
            proof {
                lemma_fields_stop_prefix(all, i as int);
            }
            return Err(FieldError::TooManyNames);
        }
        let (name, value) = (&entries[i].0, &entries[i].1);
        match header_map_append(&mut h, name.as_slice(), value.as_slice()) {
            Ok(()) => {},
            Err(FieldRefusal::Name) => {
                proof {
                    lemma_fields_stop_prefix(all, i as int);
                }
                return Err(FieldError::InvalidName(name.clone()));
            },
            Err(FieldRefusal::Value) => {
                proof {
                    lemma_fields_stop_prefix(all, i as int);
                }
                return Err(FieldError::InvalidValue(name.clone()));
            },
        }
        i = i + 1;
    }
    assert(all.subrange(0, i as int) =~= all);
    Ok(h)
}

/// The (name, value) pairs of a header map, in the order it yields them, as
/// the host's field lists take them.
pub fn header_map_to_fields(h: &http::HeaderMap) -> (r: Vec<(Vec<u8>, Vec<u8>)>)
    ensures
        pairs_view(r@) == flatten(header_groups(*h)),
{
    header_map_pairs(h)
}

} // verus!
