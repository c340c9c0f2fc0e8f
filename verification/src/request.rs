//! What a client asks for: query parameters and the parts of a batch.
use crate::text::{chars_of, is_white_space, slice_equals, split_commas, trim, trim_end, trim_start};
use vstd::prelude::*;

verus! {

/// One part a batch request may ask for.
#[derive(Clone, Copy, PartialEq, Eq, Structural, Debug)]
pub enum PartKind {
    /// uuid, username, textures value and signature
    Profile,
    /// textures value and signature
    Texture,
    /// the 8x8 face of the skin with its hat layer, as RGB bytes
    Head,
    /// the whole skin, as RGB bytes
    Skin,
    /// the whole cape, as RGB bytes
    Cape,
    /// anything else; it contributes nothing
    Other,
}

/// The part a (trimmed) name asks for.
pub open spec fn part_kind(name: Seq<char>) -> PartKind {
    if name == seq!['p', 'r', 'o', 'f', 'i', 'l', 'e'] {
        PartKind::Profile
    } else if name == seq!['t', 'e', 'x', 't', 'u', 'r', 'e'] {
        PartKind::Texture
    } else if name == seq!['h', 'e', 'a', 'd'] {
        PartKind::Head
    } else if name == seq!['s', 'k', 'i', 'n'] {
        PartKind::Skin
    } else if name == seq!['c', 'a', 'p', 'e'] {
        PartKind::Cape
    } else {
        PartKind::Other
    }
}

/// The parts named by a comma-separated list, each name trimmed, in order.
pub open spec fn requested_parts(list: Seq<char>) -> Seq<PartKind> {
    split_commas(list).map_values(|p: Seq<char>| part_kind(trim(p)))
}

/// The parts asked for when the request names none.
pub open spec fn default_parts() -> Seq<PartKind> {
    seq![PartKind::Profile, PartKind::Head]
}

/// Whether any of `parts` needs the decoded textures (a head, skin or cape).
pub open spec fn needs_images(parts: Seq<PartKind>) -> bool {
    parts.contains(PartKind::Head) || parts.contains(PartKind::Skin) || parts.contains(PartKind::Cape)
}

/// The bounds of `v[lo..hi]` with leading and trailing white space removed.
fn trim_bounds(v: &[char], lo: usize, hi: usize) -> (r: (usize, usize))
    requires
        lo <= hi <= v@.len(),
    ensures
        lo <= r.0 <= r.1 <= hi,
        v@.subrange(r.0 as int, r.1 as int) == trim(v@.subrange(lo as int, hi as int)),
{
    let mut a = lo;
    while a < hi && is_white_space(v[a])
        invariant
            lo <= a <= hi <= v@.len(),
            trim_start(v@.subrange(lo as int, hi as int)) == trim_start(v@.subrange(a as int, hi as int)),
        decreases hi - a,
    {
        assert(v@.subrange(a as int, hi as int).drop_first() =~= v@.subrange(a + 1, hi as int));
        a = a + 1;
    }
    assert(trim_start(v@.subrange(a as int, hi as int)) == v@.subrange(a as int, hi as int));
    let mut b = hi;
    while b > a && is_white_space(v[b - 1])
        invariant
            lo <= a <= b <= hi <= v@.len(),
            trim(v@.subrange(lo as int, hi as int)) == trim_end(v@.subrange(a as int, b as int)),
        decreases b - a,
    {
        assert(v@.subrange(a as int, b as int).drop_last() =~= v@.subrange(a as int, b - 1));
        b = b - 1;
    }
    (a, b)
}

/// The part named by `v[lo..hi]` once trimmed.
fn classify(v: &[char], lo: usize, hi: usize) -> (k: PartKind)
    requires
        lo <= hi <= v@.len(),
    ensures
        k == part_kind(trim(v@.subrange(lo as int, hi as int))),
{
    let (a, b) = trim_bounds(v, lo, hi);
    let profile = ['p', 'r', 'o', 'f', 'i', 'l', 'e'];
    let texture = ['t', 'e', 'x', 't', 'u', 'r', 'e'];
    let head = ['h', 'e', 'a', 'd'];
    let skin = ['s', 'k', 'i', 'n'];
    let cape = ['c', 'a', 'p', 'e'];
    assert(profile@ =~= seq!['p', 'r', 'o', 'f', 'i', 'l', 'e']);
    assert(texture@ =~= seq!['t', 'e', 'x', 't', 'u', 'r', 'e']);
    assert(head@ =~= seq!['h', 'e', 'a', 'd']);
    assert(skin@ =~= seq!['s', 'k', 'i', 'n']);
    assert(cape@ =~= seq!['c', 'a', 'p', 'e']);
    if slice_equals(v, a, b, &profile) {
        PartKind::Profile
    } else if slice_equals(v, a, b, &texture) {
        PartKind::Texture
    } else if slice_equals(v, a, b, &head) {
        PartKind::Head
    } else if slice_equals(v, a, b, &skin) {
        PartKind::Skin
    } else if slice_equals(v, a, b, &cape) {
        PartKind::Cape
    } else {
        PartKind::Other
    }
}

/// The parts named by the comma-separated `list`, in order; each name is trimmed,
/// and names that are not parts give `PartKind::Other`.
pub fn parse_parts(list: &str) -> (parts: Vec<PartKind>)
    ensures
        parts@ == requested_parts(list@),
{
    let v = chars_of(list);
    let mut parts: Vec<PartKind> = Vec::new();
    let mut start: usize = 0;
    let mut i: usize = 0;
    while i < v.len()
        invariant
            v@ == list@,
            start <= i <= v@.len(),
            split_commas(v@.take(i as int)).len() >= 1,
            split_commas(v@.take(i as int)).last() == v@.subrange(start as int, i as int),
            parts@ == split_commas(v@.take(i as int)).drop_last().map_values(
                |p: Seq<char>| part_kind(trim(p)),
            ),
        decreases v.len() - i,
    {
        let ghost before = split_commas(v@.take(i as int));
        assert(v@.take(i + 1).drop_last() =~= v@.take(i as int));
        assert(v@.take(i + 1).last() == v@[i as int]);
        if v[i] == ',' {
            let k = classify(v.as_slice(), start, i);
            parts.push(k);
            proof {
                let after = split_commas(v@.take(i + 1));
                assert(after == before.push(Seq::<char>::empty()));
                assert(after.drop_last() =~= before);
                assert(before =~= before.drop_last().push(before.last()));
                assert(parts@ =~= after.drop_last().map_values(|p: Seq<char>| part_kind(trim(p))));
                assert(v@.subrange(i + 1, i + 1) =~= Seq::<char>::empty());
            }
            start = i + 1;
        } else {
            proof {
                let after = split_commas(v@.take(i + 1));
                assert(after == before.update(before.len() - 1, before.last().push(v@[i as int])));
                assert(after.drop_last() =~= before.drop_last());
                assert(v@.subrange(start as int, i + 1) =~= v@.subrange(start as int, i as int).push(
                    v@[i as int],
                ));
            }
        }
        i = i + 1;
    }
    let k = classify(v.as_slice(), start, i);
    parts.push(k);
    proof {
        let all = split_commas(v@.take(i as int));
        assert(v@.take(i as int) =~= list@);
        assert(all =~= all.drop_last().push(all.last()));
        assert(parts@ =~= all.map_values(|p: Seq<char>| part_kind(trim(p))));
    }
    parts
}

/// `pairs` has a pair whose key is `key` and whose value is `value`.
pub open spec fn has_pair(pairs: Seq<(String, String)>, key: Seq<char>, value: Seq<char>) -> bool {
    exists|i: int| 0 <= i < pairs.len() && #[trigger] pairs[i].0@ == key && pairs[i].1@ == value
}

/// The value of the first pair in `pairs` whose key is `key`, if any.
pub open spec fn first_value(pairs: Seq<(String, String)>, key: Seq<char>) -> Option<Seq<char>>
    decreases pairs.len(),
{
    if pairs.len() == 0 {
        None
    } else if pairs[0].0@ == key {
        Some(pairs[0].1@)
    } else {
        first_value(pairs.drop_first(), key)
    }
}

/// Whether some query pair is `key=value`.
pub fn query_has_pair(pairs: &Vec<(String, String)>, key: &str, value: &str) -> (b: bool)
    ensures
        b == has_pair(pairs@, key@, value@),
{
    let k = key.to_owned();
    let w = value.to_owned();
    let mut i: usize = 0;
    while i < pairs.len()
        invariant
            k@ == key@,
            w@ == value@,
            i <= pairs@.len(),
            forall|j: int| 0 <= j < i ==> !(#[trigger] pairs@[j].0@ == key@ && pairs@[j].1@ == value@),
        decreases pairs.len() - i,
    {
        if pairs[i].0 == k && pairs[i].1 == w {
            return true;
        }
        i = i + 1;
    }
    false
}

/// The value of the first query pair whose key is `key`, if any.
pub fn query_value(pairs: &Vec<(String, String)>, key: &str) -> (r: Option<String>)
    ensures
        r matches Some(v) ==> first_value(pairs@, key@) == Some(v@),
        r is None ==> first_value(pairs@, key@) is None,
{
    let k = key.to_owned();
    let mut i: usize = 0;
    assert(pairs@.skip(0) =~= pairs@);
    while i < pairs.len()
        invariant
            k@ == key@,
            i <= pairs@.len(),
            first_value(pairs@, key@) == first_value(pairs@.skip(i as int), key@),
        decreases pairs.len() - i,
    {
        assert(pairs@.skip(i as int)[0] == pairs@[i as int]);
        if pairs[i].0 == k {
            return Some(pairs[i].1.clone());
        }
        assert(pairs@.skip(i as int).drop_first() =~= pairs@.skip(i + 1));
        i = i + 1;
    }
    None
}

/// How a player-profile request wants its answer.
#[derive(Clone, Copy)]
pub struct ProfileOptions {
    /// `format=raw`: answer with framed binary parts rather than JSON.
    pub raw: bool,
    /// the `exclude` list has the item `uuid`
    pub exclude_uuid: bool,
    /// the `exclude` list has the item `username`
    pub exclude_username: bool,
}

/// The `exclude` parameter, or nothing when it is absent.
pub open spec fn exclude_param(pairs: Seq<(String, String)>) -> Seq<char> {
    match first_value(pairs, "exclude"@) {
        Some(v) => v,
        None => Seq::empty(),
    }
}

/// Some item of the comma-separated `list`, once trimmed, is `name`.
pub open spec fn lists_item(list: Seq<char>, name: Seq<char>) -> bool {
    exists|i: int| 0 <= i < split_commas(list).len() && trim(#[trigger] split_commas(list)[i]) == name
}

/// Whether some item of the comma-separated `list`, once trimmed, is `name`.
pub fn list_has_item(list: &str, name: &[char]) -> (b: bool)
    ensures
        b == lists_item(list@, name@),
{
    let v = chars_of(list);
    let mut found = false;
    let mut start: usize = 0;
    let mut i: usize = 0;
    while i < v.len()
        invariant
            v@ == list@,
            start <= i <= v@.len(),
            split_commas(v@.take(i as int)).len() >= 1,
            split_commas(v@.take(i as int)).last() == v@.subrange(start as int, i as int),
            found == exists|k: int|
                0 <= k < split_commas(v@.take(i as int)).len() - 1 && trim(
                    #[trigger] split_commas(v@.take(i as int))[k],
                ) == name@,
        decreases v.len() - i,
    {
        let ghost before = split_commas(v@.take(i as int));
        assert(v@.take(i + 1).drop_last() =~= v@.take(i as int));
        assert(v@.take(i + 1).last() == v@[i as int]);
        if v[i] == ',' {
            let (a, b) = trim_bounds(v.as_slice(), start, i);
            let here = slice_equals(v.as_slice(), a, b, name);
            proof {
                let after = split_commas(v@.take(i + 1));
                assert(after == before.push(Seq::<char>::empty()));
                assert(v@.subrange(i + 1, i + 1) =~= Seq::<char>::empty());
                assert forall|k: int| 0 <= k < before.len() implies #[trigger] after[k] == before[k] by {}
                let lastk = before.len() - 1;
                assert(trim(after[lastk]) == name@ <==> here);
                if found {
                    let k0 = choose|k: int| 0 <= k < before.len() - 1 && trim(#[trigger] before[k]) == name@;
                    assert(after[k0] == before[k0]);
                }
                if exists|k: int| 0 <= k < after.len() - 1 && trim(#[trigger] after[k]) == name@ {
                    let k1 = choose|k: int| 0 <= k < after.len() - 1 && trim(#[trigger] after[k]) == name@;
                    if k1 < lastk {
                        assert(before[k1] == after[k1]);
                    }
                }
            }
            found = found || here;
            start = i + 1;
        } else {
            proof {
                let after = split_commas(v@.take(i + 1));
                assert(after == before.update(before.len() - 1, before.last().push(v@[i as int])));
                assert forall|k: int| 0 <= k < before.len() - 1 implies #[trigger] after[k] == before[k] by {}
                if found {
                    let k0 = choose|k: int| 0 <= k < before.len() - 1 && trim(#[trigger] before[k]) == name@;
                    assert(after[k0] == before[k0]);
                }
                if exists|k: int| 0 <= k < after.len() - 1 && trim(#[trigger] after[k]) == name@ {
                    let k1 = choose|k: int| 0 <= k < after.len() - 1 && trim(#[trigger] after[k]) == name@;
                    assert(before[k1] == after[k1]);
                }
                assert(v@.subrange(start as int, i + 1) =~= v@.subrange(start as int, i as int).push(
                    v@[i as int],
                ));
            }
        }
        i = i + 1;
    }
    let (a, b) = trim_bounds(v.as_slice(), start, i);
    let last = slice_equals(v.as_slice(), a, b, name);
    proof {
        assert(v@.take(i as int) =~= list@);
    }
    found || last
}

/// The answer options that the query pairs of a profile request select: `raw`
/// for `format=raw`, and each field dropped when it is an item of the
/// comma-separated `exclude` list.
pub fn profile_options(pairs: &Vec<(String, String)>) -> (o: ProfileOptions)
    ensures
        o.raw == has_pair(pairs@, "format"@, "raw"@),
        o.exclude_uuid == lists_item(exclude_param(pairs@), seq!['u', 'u', 'i', 'd']),
        o.exclude_username == lists_item(
            exclude_param(pairs@),
            seq!['u', 's', 'e', 'r', 'n', 'a', 'm', 'e'],
        ),
{
    let raw = query_has_pair(pairs, "format", "raw");
    let uuid = ['u', 'u', 'i', 'd'];
    let username = ['u', 's', 'e', 'r', 'n', 'a', 'm', 'e'];
    assert(uuid@ =~= seq!['u', 'u', 'i', 'd']);
    assert(username@ =~= seq!['u', 's', 'e', 'r', 'n', 'a', 'm', 'e']);
    match query_value(pairs, "exclude") {
        Some(ex) => {
            let exclude_uuid = list_has_item(ex.as_str(), &uuid);
            let exclude_username = list_has_item(ex.as_str(), &username);
            ProfileOptions { raw, exclude_uuid, exclude_username }
        },
        None => {
            let exclude_uuid = list_has_item("", &uuid);
            let exclude_username = list_has_item("", &username);
            proof {
                assert(""@ =~= Seq::<char>::empty()) by {
                    reveal_strlit("");
                }
            }
            ProfileOptions { raw, exclude_uuid, exclude_username }
        },
    }
}

/// The parts a batch request asks for: those its first `parts` parameter names,
/// or the default ones when it has none.
pub open spec fn parts_asked(pairs: Seq<(String, String)>) -> Seq<PartKind> {
    match first_value(pairs, "parts"@) {
        Some(list) => requested_parts(list),
        None => default_parts(),
    }
}

/// The first value of `key` is unchanged by a pair added at the end, unless
/// there was none, when it is the added one's.
proof fn lemma_first_value_push(pairs: Seq<(String, String)>, extra: (String, String), key: Seq<char>)
    requires
        extra.0@ == key,
    ensures
        first_value(pairs.push(extra), key) == match first_value(pairs, key) {
            Some(v) => Some(v),
            None => Some(extra.1@),
        },
    decreases pairs.len(),
{
    if pairs.len() > 0 {
        assert(pairs.push(extra).drop_first() =~= pairs.drop_first().push(extra));
        lemma_first_value_push(pairs.drop_first(), extra, key);
    } else {
        assert(pairs.push(extra)[0] == extra);
    }
}

/// `split_commas` always yields at least one piece.
proof fn lemma_split_commas_nonempty(s: Seq<char>)
    ensures
        split_commas(s).len() >= 1,
    decreases s.len(),
{
    if s.len() > 0 {
        lemma_split_commas_nonempty(s.drop_last());
    }
}

/// Characters without a comma, added at the end, join the last piece.
proof fn lemma_split_commas_suffix(x: Seq<char>, b: Seq<char>)
    requires
        forall|i: int| 0 <= i < b.len() ==> b[i] != ',',
    ensures
        split_commas(x + b) == split_commas(x).update(
            split_commas(x).len() - 1,
            split_commas(x).last() + b,
        ),
    decreases b.len(),
{
    lemma_split_commas_nonempty(x);
    let pieces = split_commas(x);
    if b.len() == 0 {
        assert(x + b =~= x);
        assert(pieces.last() + b =~= pieces.last());
        assert(pieces.update(pieces.len() - 1, pieces.last()) =~= pieces);
    } else {
        let b0 = b.drop_last();
        lemma_split_commas_suffix(x, b0);
        assert((x + b).drop_last() =~= x + b0);
        assert((x + b).last() == b.last());
        assert((pieces.last() + b0).push(b.last()) =~= pieces.last() + b);
        assert(split_commas(x + b) =~= pieces.update(pieces.len() - 1, pieces.last() + b));
    }
}

/// A batch request that names no parts asks for exactly what the same request
/// with `parts=profile,head` added asks for.
pub proof fn lemma_default_parts_are_profile_and_head(pairs: Seq<(String, String)>, extra: (String, String))
    requires
        first_value(pairs, "parts"@) is None,
        extra.0@ == "parts"@,
        extra.1@ == "profile,head"@,
    ensures
        parts_asked(pairs) == parts_asked(pairs.push(extra)),
{
    lemma_first_value_push(pairs, extra, "parts"@);
    reveal_strlit("profile,head");
    let list = extra.1@;
    let prof = seq!['p', 'r', 'o', 'f', 'i', 'l', 'e'];
    let head = seq!['h', 'e', 'a', 'd'];
    let first = prof + seq![','];
    assert(list =~= first + head);
    lemma_split_commas_suffix(Seq::empty(), prof);
    assert(Seq::<char>::empty() + prof =~= prof);
    assert(split_commas(prof) =~= seq![prof]);
    assert(first.drop_last() =~= prof);
    assert(split_commas(first) =~= seq![prof, Seq::<char>::empty()]);
    lemma_split_commas_suffix(first, head);
    assert(split_commas(list) =~= seq![prof, head]);
    assert(trim(prof) == prof);
    assert(trim(head) == head);
    assert(requested_parts(list) =~= default_parts());
}

/// The parts of a batch request: those its `parts` parameter names, or
/// `profile,head` when it has none.
pub fn batch_parts(pairs: &Vec<(String, String)>) -> (parts: Vec<PartKind>)
    ensures
        parts@ == parts_asked(pairs@),
{
    match query_value(pairs, "parts") {
        Some(list) => parse_parts(list.as_str()),
        None => {
            let v = vec![PartKind::Profile, PartKind::Head];
            assert(v@ =~= default_parts());
            v
        },
    }
}

/// Whether `parts` asks for a head, a skin or a cape.
pub fn parts_need_images(parts: &Vec<PartKind>) -> (b: bool)
    ensures
        b == needs_images(parts@),
{
    let mut i: usize = 0;
    while i < parts.len()
        invariant
            i <= parts@.len(),
            forall|j: int| 0 <= j < i ==> !(#[trigger] parts@[j] == PartKind::Head || parts@[j] == PartKind::Skin
                || parts@[j] == PartKind::Cape),
        decreases parts.len() - i,
    {
        let k = parts[i];
        if k == PartKind::Head || k == PartKind::Skin || k == PartKind::Cape {
            assert(parts@[i as int] == k);
            return true;
        }
        i = i + 1;
    }
    false
}

} // verus!
