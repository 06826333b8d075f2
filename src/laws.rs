//! Laws of seat selection and of merging device records.
use vstd::prelude::*;
use crate::device::{default_seat, lookup, seat_accepts, seat_property, seat_tag, NodeKind, RecordView};
use crate::runtime_spec::{
    add_all_spec, add_device_spec, cgroup_rule, device_entry, device_type_of, devices_of, has_path,
    major_of, minor_of, rules_of, then_add, CgroupView, DeviceView, HookError, SpecView,
};

verus! {

/// A record that yields a new entry wherever its path is not listed yet: it has
/// a node, parseable `MAJOR` and `MINOR`, readable metadata and a supported
/// node type.
pub open spec fn grantable(d: RecordView) -> bool {
    &&& d.node is Some
    &&& major_of(d) is Ok
    &&& minor_of(d) is Ok
    &&& d.node->0.meta is Ok
    &&& device_type_of(d.node->0.meta->Ok_0.kind) is Some
}

/// The node path of a record that has one.
pub open spec fn path_of(d: RecordView) -> Seq<char> {
    d.node->0.path
}

/// The device entry a grantable record yields.
pub open spec fn entry_of(d: RecordView) -> DeviceView {
    let m = d.node->0.meta->Ok_0;
    device_entry(
        path_of(d),
        device_type_of(m.kind)->0,
        major_of(d)->Ok_0,
        minor_of(d)->Ok_0,
        m,
    )
}

/// The cgroup rule a grantable record yields.
pub open spec fn rule_of(d: RecordView) -> CgroupView {
    cgroup_rule(
        device_type_of(d.node->0.meta->Ok_0.kind)->0,
        major_of(d)->Ok_0,
        minor_of(d)->Ok_0,
    )
}

/// Merging the same record a second time changes nothing: the outcome is
/// that of merging it once.
pub proof fn lemma_add_twice_is_add_once(s: SpecView, d: RecordView)
    ensures
        then_add(add_device_spec(s, d), d) == add_device_spec(s, d),
{
    if grantable(d) && !has_path(s, path_of(d)) {
        let s1 = add_device_spec(s, d)->Ok_0;
        let k = devices_of(s).len() as int;
        assert(devices_of(s1)[k].path == path_of(d));
        assert(has_path(s1, path_of(d)));
    }
}

/// Merging records with distinct paths, none of them listed yet, each with a
/// node of a supported type and parseable numbers, succeeds and appends one
/// entry and one rule per record, in the records' order.
pub proof fn lemma_add_all_appends_in_order(s: SpecView, ds: Seq<RecordView>)
    requires
        forall|i: int| 0 <= i < ds.len() ==> #[trigger] grantable(ds[i]),
        forall|i: int| 0 <= i < ds.len() ==> !has_path(s, #[trigger] path_of(ds[i])),
        forall|i: int, j: int|
            0 <= i < j < ds.len() ==> #[trigger] path_of(ds[i]) != #[trigger] path_of(ds[j]),
    ensures
        add_all_spec(s, ds) is Ok,
        add_all_spec(s, ds)->Ok_0.annotations == s.annotations,
        devices_of(add_all_spec(s, ds)->Ok_0) == devices_of(s) + ds.map_values(
            |d: RecordView| entry_of(d),
        ),
        rules_of(add_all_spec(s, ds)->Ok_0) == rules_of(s) + ds.map_values(
            |d: RecordView| rule_of(d),
        ),
        devices_of(add_all_spec(s, ds)->Ok_0).len() == devices_of(s).len() + ds.len(),
        rules_of(add_all_spec(s, ds)->Ok_0).len() == rules_of(s).len() + ds.len(),
    decreases ds.len(),
{
    if ds.len() == 0 {
        assert(devices_of(s) + ds.map_values(|d: RecordView| entry_of(d)) =~= devices_of(s));
        assert(rules_of(s) + ds.map_values(|d: RecordView| rule_of(d)) =~= rules_of(s));
    } else {
        let p = ds.drop_last();
        let d = ds.last();
        assert forall|i: int| 0 <= i < p.len() implies #[trigger] grantable(p[i]) by {
            assert(p[i] == ds[i]);
        }
        assert forall|i: int| 0 <= i < p.len() implies !has_path(s, #[trigger] path_of(p[i])) by {
            assert(p[i] == ds[i]);
        }
        assert forall|i: int, j: int| 0 <= i < j < p.len() implies #[trigger] path_of(p[i])
            != #[trigger] path_of(p[j]) by {
            assert(p[i] == ds[i]);
            assert(p[j] == ds[j]);
        }
        lemma_add_all_appends_in_order(s, p);
        let sp = add_all_spec(s, p)->Ok_0;
        let n = devices_of(s).len() as int;
        assert(grantable(ds[ds.len() - 1]));
        assert(!has_path(s, path_of(ds[ds.len() - 1])));
        assert forall|k: int| 0 <= k < devices_of(sp).len() implies (#[trigger] devices_of(
            sp,
        )[k]).path != path_of(d) by {
            if k < n {
                assert(devices_of(sp)[k] == devices_of(s)[k]);
            } else {
                assert(devices_of(sp)[k] == entry_of(p[k - n]));
                assert(p[k - n] == ds[k - n]);
                assert(path_of(ds[k - n]) != path_of(ds[ds.len() - 1]));
            }
        }
        assert(!has_path(sp, path_of(d)));
        assert(devices_of(s) + ds.map_values(|d: RecordView| entry_of(d)) =~= (devices_of(s)
            + p.map_values(|d: RecordView| entry_of(d))).push(entry_of(d)));
        assert(rules_of(s) + ds.map_values(|d: RecordView| rule_of(d)) =~= (rules_of(s)
            + p.map_values(|d: RecordView| rule_of(d))).push(rule_of(d)));
    }
}

/// The default seat takes a device tagged "seat" that names no seat.
pub proof fn lemma_default_seat_takes_unassigned(d: RecordView)
    requires
        d.tags.contains(seat_tag()),
        lookup(d.properties, seat_property()) is None,
    ensures
        seat_accepts(default_seat(), d),
{
}

/// The default seat refuses a device tagged "seat" that names another seat.
pub proof fn lemma_default_seat_refuses_other(d: RecordView, other: Seq<char>)
    requires
        d.tags.contains(seat_tag()),
        lookup(d.properties, seat_property()) == Some(other),
        other != default_seat(),
    ensures
        !seat_accepts(default_seat(), d),
{
}

/// A node that is neither a block device, a character device nor a named pipe
/// never enters either list, and with parseable numbers its merge succeeds.
pub proof fn lemma_unsupported_node_skipped(s: SpecView, d: RecordView)
    requires
        d.node is Some,
        d.node->0.meta is Ok,
        d.node->0.meta->Ok_0.kind == NodeKind::Other,
    ensures
        add_device_spec(s, d) is Ok ==> add_device_spec(s, d)->Ok_0 == s,
        major_of(d) is Ok && minor_of(d) is Ok ==> add_device_spec(s, d) == Ok::<
            SpecView,
            HookError,
        >(s),
{
}

/// A record whose node is not listed yet and that lacks `MAJOR` or `MINOR`
/// makes the merge fail.
pub proof fn lemma_missing_number_fails(s: SpecView, d: RecordView)
    requires
        d.node is Some,
        !has_path(s, path_of(d)),
        lookup(d.properties, "MAJOR"@) is None || lookup(d.properties, "MINOR"@) is None,
    ensures
        add_device_spec(s, d) is Err,
{
}

/// No two device entries share a node path.
pub open spec fn paths_unique(s: SpecView) -> bool {
    forall|i: int, j: int|
        0 <= i < j < devices_of(s).len() ==> (#[trigger] devices_of(s)[i]).path != (
        #[trigger] devices_of(s)[j]).path
}

/// The device list and the rule list have one rule per entry, with the same
/// category and numbers at each index.
pub open spec fn lockstep(s: SpecView) -> bool {
    &&& devices_of(s).len() == rules_of(s).len()
    &&& forall|i: int|
        0 <= i < devices_of(s).len() ==> {
            &&& (#[trigger] rules_of(s)[i]).typ == Some(devices_of(s)[i].typ)
            &&& rules_of(s)[i].major == Some(devices_of(s)[i].major)
            &&& rules_of(s)[i].minor == Some(devices_of(s)[i].minor)
        }
}

/// Merging a record keeps node paths unique and the two lists in lockstep.
pub proof fn lemma_add_keeps_shape(s: SpecView, d: RecordView)
    ensures
        paths_unique(s) && add_device_spec(s, d) is Ok ==> paths_unique(
            add_device_spec(s, d)->Ok_0,
        ),
        lockstep(s) && add_device_spec(s, d) is Ok ==> lockstep(add_device_spec(s, d)->Ok_0),
{
    if grantable(d) && !has_path(s, path_of(d)) {
        let s1 = add_device_spec(s, d)->Ok_0;
        let n = devices_of(s).len() as int;
        assert forall|i: int| 0 <= i < n implies (#[trigger] devices_of(s1)[i]) == devices_of(s)[i] by {}
        if lockstep(s) {
            assert forall|i: int| 0 <= i < n implies (#[trigger] rules_of(s1)[i]) == rules_of(s)[i] by {}
        }
    }
}

} // verus!
