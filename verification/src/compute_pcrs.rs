//! Merging of freshly computed reference values into those that are already stored.
use crate::error::OperatorError;
use crate::kbs::REFERENCE_VALUES_FILE;
use crate::kube_objects::one_entry;
use crate::ordered::{
    ascending, ascending_is_determined, keys_of, listing_is_determined, next_entry, to_map, TextMap,
    TextSet,
};
use crate::outside::{is_pointer, is_version, later_version, ranks_as_version};
use crate::patch::{
    guarded_patch, replace_value, PatchOperation, PatchValue, PatchValueView,
};
use crate::reference_value::{
    json_of_reference_values, later_time, reference_values_to_json,
    ReferenceValue, ReferenceValueView, Timestamp, Version,
};
use crate::rv_store::{Pcr, PcrView};
use crate::trustee::{
    listed, made_reference_values, pcr_name, pcr_names_are_distinct, pcr_reference_name,
    read_clock, stamp_all, stamped, svn_name,
};
use vstd::prelude::*;

verus! {

/// What is known under one name: the accepted values as a set, with version and expiry.
pub struct RvContent {
    pub version: Version,
    pub expiration: Timestamp,
    pub values: TextSet,
}

/// The contents of an `RvContent`.
#[verifier::ext_equal]
pub struct RvContentView {
    pub version: Seq<char>,
    pub expiration: (i64, u32),
    pub values: Set<Seq<char>>,
}

impl DeepView for RvContent {
    type V = RvContentView;

    open spec fn deep_view(&self) -> RvContentView {
        RvContentView {
            version: self.version@,
            expiration: self.expiration@,
            values: self.values@,
        }
    }
}

/// A list of reference values.
pub struct ReferenceValues(pub Vec<ReferenceValue>);

/// What one reference value says of its name.
pub open spec fn content_of(rv: ReferenceValueView) -> RvContentView {
    RvContentView {
        version: rv.version,
        expiration: rv.expiration,
        values: rv.value.to_set(),
    }
}

/// What a list of reference values says of each name. Where a name occurs more than once, the last
/// occurrence counts.
pub open spec fn contents(rvs: Seq<ReferenceValueView>) -> Map<Seq<char>, RvContentView>
    decreases rvs.len(),
{
    if rvs.len() == 0 {
        Map::empty()
    } else {
        contents(rvs.drop_last()).insert(rvs.last().name, content_of(rvs.last()))
    }
}

/// What two contents of the same name become together: the later version, the later expiry and the
/// values of both.
pub open spec fn joined(a: RvContentView, b: RvContentView) -> RvContentView {
    RvContentView {
        version: later_version(a.version, b.version),
        expiration: later_time(a.expiration, b.expiration),
        values: a.values.union(b.values),
    }
}

/// All names of two maps. A name of both has the contents of both.
pub open spec fn merged(
    a: Map<Seq<char>, RvContentView>,
    b: Map<Seq<char>, RvContentView>,
) -> Map<Seq<char>, RvContentView> {
    Map::new(
        |name: Seq<char>| a.contains_key(name) || b.contains_key(name),
        |name: Seq<char>|
            if a.contains_key(name) && b.contains_key(name) {
                joined(a[name], b[name])
            } else if a.contains_key(name) {
                a[name]
            } else {
                b[name]
            },
    )
}

/// All versions in a map are versions that have their place in the order of versions, as every
/// `Version` has.
pub open spec fn valid_versions(map: Map<Seq<char>, RvContentView>) -> bool {
    forall|name: Seq<char>| #[trigger]
        map.contains_key(name) ==> is_version(map[name].version) && ranks_as_version(
            map[name].version,
        )
}

/// Of each name that two maps share, a third one has the version of the one or of the other.
pub open spec fn takes_versions_from(
    all: Map<Seq<char>, RvContentView>,
    a: Map<Seq<char>, RvContentView>,
    b: Map<Seq<char>, RvContentView>,
) -> bool {
    forall|name: Seq<char>|
        a.contains_key(name) && b.contains_key(name) ==> (#[trigger] all[name]).version
            == a[name].version || all[name].version == b[name].version
}

/// A list is what merging two others gives: it says all that either of them says of each name, and
/// it is in order.
pub open spec fn is_merge_of(
    out: Seq<ReferenceValueView>,
    a: Seq<ReferenceValueView>,
    b: Seq<ReferenceValueView>,
) -> bool {
    contents(out) == merged(contents(a), contents(b)) && is_listing(out)
}

/// The names of a list of reference values.
pub open spec fn names_of(rvs: Seq<ReferenceValueView>) -> Seq<Seq<char>> {
    Seq::new(rvs.len(), |i: int| rvs[i].name)
}

impl RvContent {
    /// The same contents again.
    fn copy(&self) -> (content: RvContent)
        ensures
            content.deep_view() == self.deep_view(),
    {
        let list = self.values.to_list();
        let content = RvContent {
            version: self.version.copy(),
            expiration: self.expiration,
            values: TextSet::of(&list),
        };
        content
    }

    /// These contents together with others of the same name.
    fn join(&self, other: &RvContent) -> (content: RvContent)
        ensures
            content.deep_view() == joined(self.deep_view(), other.deep_view()),
    {
        RvContent {
            version: self.version.later(&other.version),
            expiration: self.expiration.later(other.expiration),
            values: self.values.union(&other.values),
        }
    }
}

impl ReferenceValues {
    /// What the list says of each name.
    pub fn to_map(&self) -> (map: TextMap<RvContent>)
        ensures
            map@ == contents(self.0.deep_view()),
            valid_versions(map@),
    {
        let mut out: TextMap<RvContent> = TextMap::new();
        let ghost all = self.0.deep_view();
        assert(contents(all.take(0)) == Map::<Seq<char>, RvContentView>::empty());
        let mut i: usize = 0;
        while i < self.0.len()
            invariant
                i <= self.0@.len(),
                all == self.0.deep_view(),
                out@ == contents(all.take(i as int)),
                valid_versions(out@),
            decreases self.0@.len() - i,
        {
            let rv = &self.0[i];
            let content = RvContent {
                version: rv.version.copy(),
                expiration: rv.expiration,
                values: TextSet::of(&rv.value),
            };
            proof {
                use_type_invariant(&rv.version);
                assert(rv.deep_view() == all[i as int]);
                assert(all.take(i + 1).drop_last() =~= all.take(i as int));
                assert(all.take(i + 1).last() == all[i as int]);
            }
            out = out.insert(rv.name.clone(), content);
            i = i + 1;
        }
        assert(all.take(i as int) =~= all);
        out
    }

    /// All that either list says of each name, in the order of the names. A version that both have
    /// a say in is one of the two.
    pub fn merge(&self, other: &ReferenceValues) -> (out: ReferenceValues)
        ensures
            is_merge_of(out.0.deep_view(), self.0.deep_view(), other.0.deep_view()),
            takes_versions_from(
                contents(out.0.deep_view()),
                contents(self.0.deep_view()),
                contents(other.0.deep_view()),
            ),
            valid_versions(contents(self.0.deep_view())),
            valid_versions(contents(other.0.deep_view())),
            valid_versions(contents(out.0.deep_view())),
    {
        let mut map = self.to_map();
        let more = other.to_map();
        let ghost a = map@;
        let ghost pairs = more.pairs();
        proof {
            use_type_invariant(&more);
            assert(to_map(pairs.take(0)) =~= Map::<Seq<char>, RvContentView>::empty());
            assert(merged(a, to_map(pairs.take(0))) =~= a);
        }
        let n = more.len();
        let mut i: usize = 0;
        while i < n
            invariant
                i <= n == pairs.len(),
                pairs == more.pairs(),
                ascending(keys_of(pairs)),
                map@ == merged(a, to_map(pairs.take(i as int))),
            decreases n - i,
        {
            let name = more.key(i);
            let content = more.value(i);
            let ghost b = to_map(pairs.take(i as int));
            proof {
                next_entry(pairs, i as int);
            }
            let (rest, known) = map.remove(name);
            let new = match known {
                Some(old) => old.join(content),
                None => content.copy(),
            };
            map = rest.insert(name.to_owned(), new);
            assert(map@ =~= merged(a, to_map(pairs.take(i + 1))));
            i = i + 1;
        }
        proof {
            assert(pairs.take(i as int) =~= pairs);
            merging_keeps_versions(a, more@);
        }
        list_contents(&map)
    }
}

/// Lists contents in the order of their names.
fn list_contents(map: &TextMap<RvContent>) -> (out: ReferenceValues)
    ensures
        contents(out.0.deep_view()) == map@,
        is_listing(out.0.deep_view()),
{
    let mut list: Vec<ReferenceValue> = Vec::new();
    let ghost pairs = map.pairs();
    proof {
        use_type_invariant(map);
        assert(to_map(pairs.take(0)) =~= Map::<Seq<char>, RvContentView>::empty());
    }
    let n = map.len();
    let mut i: usize = 0;
    while i < n
        invariant
            i <= n == pairs.len(),
            pairs == map.pairs(),
            ascending(keys_of(pairs)),
            contents(list.deep_view()) == to_map(pairs.take(i as int)),
            names_of(list.deep_view()) =~= keys_of(pairs).take(i as int),
            forall|j: int| 0 <= j < list@.len() ==> ascending((#[trigger] list.deep_view()[j]).value),
        decreases n - i,
    {
        let content = map.value(i);
        let rv = ReferenceValue {
            version: content.version.copy(),
            name: map.key(i).to_owned(),
            expiration: content.expiration,
            value: content.values.to_list(),
        };
        let ghost before = list.deep_view();
        list.push(rv);
        proof {
            next_entry(pairs, i as int);
            assert(list.deep_view() =~= before.push(rv.deep_view()));
            assert(list.deep_view().drop_last() =~= before);
            assert(content_of(rv.deep_view()) =~= pairs[i as int].1);
            assert(names_of(list.deep_view()) =~= names_of(before).push(pairs[i as int].0));
            assert forall|j: int| 0 <= j < list@.len() implies ascending(
                (#[trigger] list.deep_view()[j]).value,
            ) by {
                if j < before.len() {
                    assert(list.deep_view()[j] == before[j]);
                }
            }
        }
        i = i + 1;
    }
    assert(pairs.take(i as int) =~= pairs);
    assert(keys_of(pairs).take(i as int) =~= keys_of(pairs));
    ReferenceValues(list)
}

/// Merging loses nothing: each name of either side stays, with at least the values that it had and
/// with an expiry that is not earlier.
pub proof fn merge_loses_nothing(
    a: Map<Seq<char>, RvContentView>,
    b: Map<Seq<char>, RvContentView>,
    name: Seq<char>,
)
    ensures
        a.contains_key(name) ==> {
            &&& merged(a, b).contains_key(name)
            &&& a[name].values.subset_of(merged(a, b)[name].values)
            &&& later_time(a[name].expiration, merged(a, b)[name].expiration) == merged(
                a,
                b,
            )[name].expiration
        },
        b.contains_key(name) ==> {
            &&& merged(a, b).contains_key(name)
            &&& b[name].values.subset_of(merged(a, b)[name].values)
            &&& later_time(b[name].expiration, merged(a, b)[name].expiration) == merged(
                a,
                b,
            )[name].expiration
        },
{
}

/// Merging invents nothing: a name of the result is a name of one side, and a value that is
/// accepted under it was accepted under it before.
pub proof fn merge_invents_nothing(
    a: Map<Seq<char>, RvContentView>,
    b: Map<Seq<char>, RvContentView>,
    name: Seq<char>,
    value: Seq<char>,
)
    requires
        merged(a, b).contains_key(name),
    ensures
        a.contains_key(name) || b.contains_key(name),
        merged(a, b)[name].values.contains(value) ==> (a.contains_key(name)
            && a[name].values.contains(value)) || (b.contains_key(name) && b[name].values.contains(
            value,
        )),
{
}

/// A version that both sides have a say in becomes one of the two, so all versions stay valid.
pub proof fn merging_keeps_versions(
    a: Map<Seq<char>, RvContentView>,
    b: Map<Seq<char>, RvContentView>,
)
    requires
        valid_versions(a),
        valid_versions(b),
    ensures
        valid_versions(merged(a, b)),
        takes_versions_from(merged(a, b), a, b),
{
    let all = merged(a, b);
    assert forall|name: Seq<char>| a.contains_key(name) && b.contains_key(name) implies (
    #[trigger] all[name]).version == a[name].version || all[name].version == b[name].version by {
        assert(is_version(b[name].version));
    }
}

/// Which side is merged into which makes no difference.
pub proof fn merge_commutes(a: Map<Seq<char>, RvContentView>, b: Map<Seq<char>, RvContentView>)
    requires
        valid_versions(a),
        valid_versions(b),
    ensures
        merged(a, b) == merged(b, a),
{
    let ab = merged(a, b);
    let ba = merged(b, a);
    assert forall|name: Seq<char>| ab.contains_key(name) implies ab[name] == ba[name] by {
        if a.contains_key(name) && b.contains_key(name) {
            assert(is_version(b[name].version));
            assert(ab[name] =~= ba[name]);
        }
    }
    assert(ab =~= ba);
}

/// Three sides can be merged in any grouping.
pub proof fn merge_associates(
    a: Map<Seq<char>, RvContentView>,
    b: Map<Seq<char>, RvContentView>,
    c: Map<Seq<char>, RvContentView>,
)
    requires
        valid_versions(a),
        valid_versions(b),
        valid_versions(c),
    ensures
        merged(merged(a, b), c) == merged(a, merged(b, c)),
{
    let left = merged(merged(a, b), c);
    let right = merged(a, merged(b, c));
    assert forall|name: Seq<char>| left.contains_key(name) implies left[name] == right[name] by {
        if a.contains_key(name) && b.contains_key(name) && c.contains_key(name) {
            assert(is_version(b[name].version) && is_version(c[name].version));
            assert(left[name] =~= right[name]);
        }
    }
    assert(left =~= right);
}

/// Merging the same values in once more changes nothing, and neither does merging a side with
/// itself.
pub proof fn merge_absorbs(a: Map<Seq<char>, RvContentView>, b: Map<Seq<char>, RvContentView>)
    requires
        valid_versions(a),
        valid_versions(b),
    ensures
        merged(merged(a, b), b) == merged(a, b),
        merged(a, a) == a,
{
    let once = merged(a, b);
    let twice = merged(once, b);
    assert forall|name: Seq<char>| twice.contains_key(name) implies twice[name] == once[name] by {
        if b.contains_key(name) {
            assert(is_version(b[name].version));
            assert(twice[name] =~= once[name]);
        }
    }
    assert(twice =~= once);
    assert forall|name: Seq<char>| a.contains_key(name) implies merged(a, a)[name] == a[name] by {
        assert(is_version(a[name].version));
        assert(merged(a, a)[name] =~= a[name]);
    }
    assert(merged(a, a) =~= a);
}

/// Merging with a side that knows no names changes nothing.
pub proof fn merge_with_nothing(a: Map<Seq<char>, RvContentView>)
    ensures
        merged(a, Map::empty()) == a,
        merged(Map::empty(), a) == a,
{
    assert(merged(a, Map::empty()) =~= a);
    assert(merged(Map::empty(), a) =~= a);
}

/// A list that is in the order of its names and whose values are in order.
pub open spec fn is_listing(rvs: Seq<ReferenceValueView>) -> bool {
    &&& ascending(names_of(rvs))
    &&& forall|i: int| 0 <= i < rvs.len() ==> ascending((#[trigger] rvs[i]).value)
}

/// What is merged determines the list to the letter: two ordered lists with the same contents are
/// the same list.
pub proof fn merge_is_determined(a: Seq<ReferenceValueView>, b: Seq<ReferenceValueView>)
    requires
        is_listing(a),
        is_listing(b),
        contents(a) == contents(b),
    ensures
        a == b,
{
    contents_of_listing(a);
    contents_of_listing(b);
    let x = named_contents(a);
    let y = named_contents(b);
    assert(keys_of(x) =~= names_of(a));
    assert(keys_of(y) =~= names_of(b));
    listing_is_determined(x, y);
    assert forall|i: int| 0 <= i < a.len() implies a[i] == b[i] by {
        assert(x[i] == y[i]);
        ascending_is_determined(a[i].value, b[i].value);
        assert(a[i] =~= b[i]);
    }
    assert(a =~= b);
}

/// Merging two lists in either order gives the same list.
pub proof fn merged_lists_commute(
    a: Seq<ReferenceValueView>,
    b: Seq<ReferenceValueView>,
    ab: Seq<ReferenceValueView>,
    ba: Seq<ReferenceValueView>,
)
    requires
        valid_versions(contents(a)),
        valid_versions(contents(b)),
        is_merge_of(ab, a, b),
        is_merge_of(ba, b, a),
    ensures
        ab == ba,
{
    merge_commutes(contents(a), contents(b));
    merge_is_determined(ab, ba);
}

/// Merging three lists in any grouping gives the same list.
pub proof fn merged_lists_associate(
    a: Seq<ReferenceValueView>,
    b: Seq<ReferenceValueView>,
    c: Seq<ReferenceValueView>,
    ab: Seq<ReferenceValueView>,
    bc: Seq<ReferenceValueView>,
    left: Seq<ReferenceValueView>,
    right: Seq<ReferenceValueView>,
)
    requires
        valid_versions(contents(a)),
        valid_versions(contents(b)),
        valid_versions(contents(c)),
        is_merge_of(ab, a, b),
        is_merge_of(bc, b, c),
        is_merge_of(left, ab, c),
        is_merge_of(right, a, bc),
    ensures
        left == right,
{
    merge_associates(contents(a), contents(b), contents(c));
    merge_is_determined(left, right);
}

/// Merging a list in once more gives the same list, and merging a list with itself is merging it
/// with nothing.
pub proof fn merged_lists_absorb(
    a: Seq<ReferenceValueView>,
    b: Seq<ReferenceValueView>,
    ab: Seq<ReferenceValueView>,
    again: Seq<ReferenceValueView>,
    with_itself: Seq<ReferenceValueView>,
    with_nothing: Seq<ReferenceValueView>,
)
    requires
        valid_versions(contents(a)),
        valid_versions(contents(b)),
        is_merge_of(ab, a, b),
        is_merge_of(again, ab, b),
        is_merge_of(with_itself, a, a),
        is_merge_of(with_nothing, a, Seq::empty()),
    ensures
        again == ab,
        with_itself == with_nothing,
{
    merge_absorbs(contents(a), contents(b));
    merge_with_nothing(contents(a));
    merge_is_determined(again, ab);
    merge_is_determined(with_itself, with_nothing);
}

/// The names of a list with what it says of them.
spec fn named_contents(rvs: Seq<ReferenceValueView>) -> Seq<(Seq<char>, RvContentView)> {
    Seq::new(rvs.len(), |i: int| (rvs[i].name, content_of(rvs[i])))
}

/// In an ordered list every entry counts.
proof fn contents_of_listing(rvs: Seq<ReferenceValueView>)
    requires
        ascending(names_of(rvs)),
    ensures
        contents(rvs) == to_map(named_contents(rvs)),
    decreases rvs.len(),
{
    let pairs = named_contents(rvs);
    if rvs.len() == 0 {
        assert(to_map(pairs) =~= Map::empty());
    } else {
        let rest = rvs.drop_last();
        let last = rvs.len() - 1;
        assert(keys_of(pairs) =~= names_of(rvs));
        assert(named_contents(rest) =~= pairs.take(last));
        assert(pairs.take(last + 1) =~= pairs);
        next_entry(pairs, last);
        assert(names_of(rest) =~= keys_of(pairs.take(last)));
        contents_of_listing(rest);
    }
}

/// Names and accepted values of the freshly computed registers: one value each, and then security
/// version number 1.
pub open spec fn fresh_entries(pcrs: Seq<PcrView>) -> Seq<(Seq<char>, Seq<Seq<char>>)> {
    Seq::new(pcrs.len(), |i: int| (pcr_name(pcrs[i].id), seq![pcrs[i].value])).push(
        (svn_name(), seq!["1"@]),
    )
}

/// The names and accepted values of freshly computed registers, written out.
pub fn list_fresh_values(pcrs: &Vec<Pcr>) -> (entries: Vec<(String, Vec<String>)>)
    ensures
        entries.deep_view() == fresh_entries(pcrs.deep_view()),
{
    let ghost wanted = fresh_entries(pcrs.deep_view());
    let mut entries: Vec<(String, Vec<String>)> = Vec::new();
    let mut i: usize = 0;
    while i < pcrs.len()
        invariant
            i <= pcrs@.len(),
            wanted == fresh_entries(pcrs.deep_view()),
            entries.deep_view() =~= wanted.take(i as int),
        decreases pcrs@.len() - i,
    {
        let ghost before = entries.deep_view();
        let entry = one_value(pcr_reference_name(pcrs[i].id), pcrs[i].value.clone());
        entries.push(entry);
        assert(entries.deep_view() =~= before.push(entry.deep_view()));
        assert(wanted.take(i + 1) =~= wanted.take(i as int).push(wanted[i as int]));
        i = i + 1;
    }
    let ghost before = entries.deep_view();
    let entry = one_value("tpm_svn".to_owned(), "1".to_owned());
    entries.push(entry);
    assert(entries.deep_view() =~= before.push(entry.deep_view()));
    assert(wanted =~= wanted.take(i as int).push(wanted[i as int]));
    entries
}

/// A name with one accepted value.
fn one_value(name: String, value: String) -> (entry: (String, Vec<String>))
    ensures
        entry.deep_view() == (name@, seq![value@]),
{
    let mut values: Vec<String> = Vec::new();
    values.push(value);
    assert(values.deep_view() =~= seq![value@]);
    (name, values)
}

/// Makes the reference values of freshly computed registers. The clock is read for each of them.
pub fn fresh_reference_values(pcrs: &Vec<Pcr>) -> (rvs: Result<ReferenceValues, OperatorError>)
    ensures
        rvs matches Ok(r) ==> listed(r.0.deep_view()) == fresh_entries(pcrs.deep_view()) && stamped(
            r.0.deep_view(),
        ),
        rvs matches Err(e) ==> e is ExpiryOutOfRange,
{
    let entries = list_fresh_values(pcrs);
    let nows = read_clock(entries.len());
    proof {
        made_reference_values(entries.deep_view(), nows.deep_view());
    }
    match stamp_all(&entries, &nows) {
        Ok(list) => Ok(ReferenceValues(list)),
        Err(e) => Err(e),
    }
}

/// The reference values that a config map already holds, as JSON, if it holds any.
pub fn stored_reference_values(data: &Option<TextMap<String>>) -> (text: Option<&str>)
    ensures
        text is Some <==> (data matches Some(map) && map@.contains_key(REFERENCE_VALUES_FILE@)),
        text matches Some(t) ==> t@ == data->0@[REFERENCE_VALUES_FILE@],
{
    match data {
        None => None,
        Some(map) => match map.get(REFERENCE_VALUES_FILE) {
            None => None,
            Some(text) => Some(text.as_str()),
        },
    }
}

/// Existing data, as the value that a patch tests.
pub open spec fn existing_fields(data: Option<Map<Seq<char>, Seq<char>>>) -> Option<
    PatchValueView,
> {
    match data {
        Some(map) => Some(PatchValueView::Fields(map)),
        None => None,
    }
}

/// Makes the patch after which the merged reference values are all that the config map holds. If
/// it holds data already, the patch applies only while these are unchanged.
pub fn merged_patch(existing: Option<TextMap<String>>, merged: &ReferenceValues) -> (operations:
    Result<Vec<PatchOperation>, OperatorError>)
    ensures
        operations is Ok,
        operations matches Ok(list) ==> list.deep_view() == guarded_patch(
            "/data"@,
            existing_fields(existing.deep_view()),
            PatchValueView::Fields(
                map![REFERENCE_VALUES_FILE@ => json_of_reference_values(merged.0.deep_view())],
            ),
        ),
{
    proof {
        reveal_strlit("/data");
        assert("/data"@ =~= seq!['/', 'd', 'a', 't', 'a']);
        assert(is_pointer("/data"@));
    }
    let json = match reference_values_to_json(&merged.0) {
        Ok(json) => json,
        Err(e) => {
            return Err(OperatorError::Json(e));
        },
    };
    let data = one_entry(REFERENCE_VALUES_FILE, json.as_str());
    let existing = match existing {
        Some(map) => Some(PatchValue::Fields(map)),
        None => None,
    };
    replace_value("/data", existing, PatchValue::Fields(data))
}

/// Once fresh reference values are merged in, the value of each computed register and security
/// version number 1 are accepted, whatever was stored before.
pub proof fn merging_accepts_the_computed_registers(
    stored: Seq<ReferenceValueView>,
    fresh: Seq<ReferenceValueView>,
    pcrs: Seq<PcrView>,
    i: int,
)
    requires
        listed(fresh) == fresh_entries(pcrs),
        0 <= i < pcrs.len(),
        forall|j: int| 0 <= j < pcrs.len() && #[trigger] pcrs[j].id == pcrs[i].id ==> j <= i,
    ensures
        ({
            let all = merged(contents(stored), contents(fresh));
            &&& all.contains_key(pcr_name(pcrs[i].id))
            &&& all[pcr_name(pcrs[i].id)].values.contains(pcrs[i].value)
            &&& all.contains_key(svn_name())
            &&& all[svn_name()].values.contains("1"@)
        }),
{
    let entries = fresh_entries(pcrs);
    assert(listed(fresh).len() == fresh.len());
    assert forall|j: int| i < j < fresh.len() implies (#[trigger] fresh[j]).name != pcr_name(
        pcrs[i].id,
    ) by {
        assert(listed(fresh)[j] == entries[j]);
        if j < pcrs.len() {
            assert(pcrs[j].id != pcrs[i].id);
            pcr_names_are_distinct(pcrs[j].id, pcrs[i].id);
        } else {
            pcr_names_are_distinct(pcrs[i].id, pcrs[i].id);
        }
    }
    assert(listed(fresh)[i] == entries[i]);
    assert(listed(fresh)[fresh.len() - 1] == entries[fresh.len() - 1]);
    last_occurrence_counts(fresh, i);
    last_occurrence_counts(fresh, fresh.len() - 1);
    assert(fresh[i].value[0] == pcrs[i].value);
    assert(fresh.last().value[0] == "1"@);
}

/// What a list says of a name is what its last entry of that name says.
pub proof fn last_occurrence_counts(rvs: Seq<ReferenceValueView>, i: int)
    requires
        0 <= i < rvs.len(),
        forall|j: int| i < j < rvs.len() ==> (#[trigger] rvs[j]).name != rvs[i].name,
    ensures
        contents(rvs).contains_key(rvs[i].name),
        contents(rvs)[rvs[i].name] == content_of(rvs[i]),
    decreases rvs.len(),
{
    if i < rvs.len() - 1 {
        let rest = rvs.drop_last();
        assert forall|j: int| i < j < rest.len() implies (#[trigger] rest[j]).name
            != rest[i].name by {
            assert(rest[j] == rvs[j]);
        }
        last_occurrence_counts(rest, i);
        assert(rvs.last() == rvs[rvs.len() - 1]);
    }
}

} // verus!
