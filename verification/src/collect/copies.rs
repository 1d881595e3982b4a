//! What goes into the graph much as it was listed.

use crate::collect::parts;
use crate::collect::parts::given_or;
use crate::collect::raw::RawHpa;
use crate::labels::Labels;
use crate::model::{
    ConditionInfo, DestinationRuleInfo, HpaInfo, MeshInfo, NamespaceInfo, PvcInfo,
    VirtualServiceInfo,
};
use crate::text;
use crate::text::{cat3, copy_list, copy_or_empty, opt_copy};
use vstd::prelude::*;

verus! {

broadcast use crate::pick::lemma_add_nothing;

fn copy_claim(x: &PvcInfo) -> (r: PvcInfo)
    ensures
        r == *x,
{
    PvcInfo {
        namespace: x.namespace.clone(),
        name: x.name.clone(),
        phase: x.phase.clone(),
        storage_class: opt_copy(&x.storage_class),
    }
}

/// Copy volume claims.
pub fn copy_claims(v: &Vec<PvcInfo>) -> (r: Vec<PvcInfo>)
    ensures
        r@ == v@,
{
    let mut r: Vec<PvcInfo> = Vec::new();
    let mut i: usize = 0;
    while i < v.len()
        invariant
            i <= v@.len(),
            r@ == v@.take(i as int),
        decreases v@.len() - i,
    {
        r.push(copy_claim(&v[i]));
        proof {
            assert(v@.take(i as int).push(v@[i as int]) =~= v@.take(i + 1));
        }
        i = i + 1;
    }
    proof {
        assert(v@.take(i as int) =~= v@);
    }
    r
}

fn copy_condition(x: &ConditionInfo) -> (r: ConditionInfo)
    ensures
        r == *x,
{
    ConditionInfo {
        type_: x.type_.clone(),
        status: x.status.clone(),
        reason: opt_copy(&x.reason),
        message: opt_copy(&x.message),
    }
}

fn copy_conditions(v: &Vec<ConditionInfo>) -> (r: Vec<ConditionInfo>)
    ensures
        r@ == v@,
{
    let mut r: Vec<ConditionInfo> = Vec::new();
    let mut i: usize = 0;
    while i < v.len()
        invariant
            i <= v@.len(),
            r@ == v@.take(i as int),
        decreases v@.len() - i,
    {
        r.push(copy_condition(&v[i]));
        proof {
            assert(v@.take(i as int).push(v@[i as int]) =~= v@.take(i + 1));
        }
        i = i + 1;
    }
    proof {
        assert(v@.take(i as int) =~= v@);
    }
    r
}

/// What an autoscaler makes. Without a lower bound it keeps one pod.
pub open spec fn hpa_from(x: RawHpa, r: HpaInfo) -> bool {
    &&& r.namespace@ == text::or_empty(x.namespace)
    &&& r.name@ == text::or_empty(x.name)
    &&& r.target@ == x.target_kind@ + "/"@ + x.target_name@
    &&& r.min == parts::given(x.min, 1)
    &&& r.max == x.max
    &&& r.current == parts::given(x.current, 0)
    &&& r.desired == x.desired
    &&& r.conditions@ == x.conditions@
}

fn convert_hpa(x: &RawHpa) -> (r: HpaInfo)
    ensures
        hpa_from(*x, r),
{
    HpaInfo {
        namespace: copy_or_empty(&x.namespace),
        name: copy_or_empty(&x.name),
        target: cat3(x.target_kind.as_str(), "/", x.target_name.as_str()),
        min: given_or(x.min, 1),
        max: x.max,
        current: given_or(x.current, 0),
        desired: x.desired,
        conditions: copy_conditions(&x.conditions),
    }
}

/// What the autoscalers make.
pub open spec fn hpas_from(v: Seq<RawHpa>, r: Seq<HpaInfo>) -> bool {
    r.len() == v.len() && forall|i: int| 0 <= i < v.len() ==> hpa_from(v[i], #[trigger] r[i])
}

pub fn convert_hpas(v: &Vec<RawHpa>) -> (r: Vec<HpaInfo>)
    ensures
        hpas_from(v@, r@),
{
    let mut r: Vec<HpaInfo> = Vec::new();
    let mut i: usize = 0;
    while i < v.len()
        invariant
            i <= v@.len(),
            r@.len() == i,
            forall|j: int| 0 <= j < i ==> hpa_from(v@[j], #[trigger] r@[j]),
        decreases v@.len() - i,
    {
        let x: HpaInfo = convert_hpa(&v[i]);
        r.push(x);
        i = i + 1;
    }
    r
}

/// Is it the same namespace?
pub open spec fn same_namespace(x: NamespaceInfo, r: NamespaceInfo) -> bool {
    r.name == x.name && r.labels@ == x.labels@
}

fn copy_namespace(x: &NamespaceInfo) -> (r: NamespaceInfo)
    ensures
        same_namespace(*x, r),
{
    NamespaceInfo { name: x.name.clone(), labels: x.labels.copy() }
}

/// Are they the same namespaces?
pub open spec fn same_namespaces(v: Seq<NamespaceInfo>, r: Seq<NamespaceInfo>) -> bool {
    r.len() == v.len() && forall|i: int| 0 <= i < v.len() ==> same_namespace(v[i], #[trigger] r[i])
}

pub fn copy_namespaces(v: &Vec<NamespaceInfo>) -> (r: Vec<NamespaceInfo>)
    ensures
        same_namespaces(v@, r@),
{
    let mut r: Vec<NamespaceInfo> = Vec::new();
    let mut i: usize = 0;
    while i < v.len()
        invariant
            i <= v@.len(),
            r@.len() == i,
            forall|j: int| 0 <= j < i ==> same_namespace(v@[j], #[trigger] r@[j]),
        decreases v@.len() - i,
    {
        let x: NamespaceInfo = copy_namespace(&v[i]);
        r.push(x);
        i = i + 1;
    }
    r
}

fn copy_destination(x: &(String, Option<String>)) -> (r: (String, Option<String>))
    ensures
        r == *x,
{
    (x.0.clone(), opt_copy(&x.1))
}

fn copy_destinations(v: &Vec<(String, Option<String>)>) -> (r: Vec<(String, Option<String>)>)
    ensures
        r@ == v@,
{
    let mut r: Vec<(String, Option<String>)> = Vec::new();
    let mut i: usize = 0;
    while i < v.len()
        invariant
            i <= v@.len(),
            r@ == v@.take(i as int),
        decreases v@.len() - i,
    {
        r.push(copy_destination(&v[i]));
        proof {
            assert(v@.take(i as int).push(v@[i as int]) =~= v@.take(i + 1));
        }
        i = i + 1;
    }
    proof {
        assert(v@.take(i as int) =~= v@);
    }
    r
}

/// Is it the same virtual service?
pub open spec fn same_virtual(x: VirtualServiceInfo, r: VirtualServiceInfo) -> bool {
    &&& r.namespace == x.namespace
    &&& r.name == x.name
    &&& r.hosts@ == x.hosts@
    &&& r.destinations@ == x.destinations@
}

fn copy_virtual(x: &VirtualServiceInfo) -> (r: VirtualServiceInfo)
    ensures
        same_virtual(*x, r),
{
    VirtualServiceInfo {
        namespace: x.namespace.clone(),
        name: x.name.clone(),
        hosts: copy_list(&x.hosts),
        destinations: copy_destinations(&x.destinations),
    }
}

/// Are they the same virtual services?
pub open spec fn same_virtuals(v: Seq<VirtualServiceInfo>, r: Seq<VirtualServiceInfo>) -> bool {
    r.len() == v.len() && forall|i: int| 0 <= i < v.len() ==> same_virtual(v[i], #[trigger] r[i])
}

fn copy_virtuals(v: &Vec<VirtualServiceInfo>) -> (r: Vec<VirtualServiceInfo>)
    ensures
        same_virtuals(v@, r@),
{
    let mut r: Vec<VirtualServiceInfo> = Vec::new();
    let mut i: usize = 0;
    while i < v.len()
        invariant
            i <= v@.len(),
            r@.len() == i,
            forall|j: int| 0 <= j < i ==> same_virtual(v@[j], #[trigger] r@[j]),
        decreases v@.len() - i,
    {
        let x: VirtualServiceInfo = copy_virtual(&v[i]);
        r.push(x);
        i = i + 1;
    }
    r
}

/// Is it the same subset?
pub open spec fn same_subset(x: (String, Labels), r: (String, Labels)) -> bool {
    r.0 == x.0 && r.1@ == x.1@
}

fn copy_subset(x: &(String, Labels)) -> (r: (String, Labels))
    ensures
        same_subset(*x, r),
{
    (x.0.clone(), x.1.copy())
}

/// Are they the same subsets?
pub open spec fn same_subsets(v: Seq<(String, Labels)>, r: Seq<(String, Labels)>) -> bool {
    r.len() == v.len() && forall|i: int| 0 <= i < v.len() ==> same_subset(v[i], #[trigger] r[i])
}

fn copy_subsets(v: &Vec<(String, Labels)>) -> (r: Vec<(String, Labels)>)
    ensures
        same_subsets(v@, r@),
{
    let mut r: Vec<(String, Labels)> = Vec::new();
    let mut i: usize = 0;
    while i < v.len()
        invariant
            i <= v@.len(),
            r@.len() == i,
            forall|j: int| 0 <= j < i ==> same_subset(v@[j], #[trigger] r@[j]),
        decreases v@.len() - i,
    {
        let x: (String, Labels) = copy_subset(&v[i]);
        r.push(x);
        i = i + 1;
    }
    r
}

/// Is it the same destination rule?
pub open spec fn same_rule(x: DestinationRuleInfo, r: DestinationRuleInfo) -> bool {
    &&& r.namespace == x.namespace
    &&& r.name == x.name
    &&& r.host == x.host
    &&& same_subsets(x.subsets@, r.subsets@)
}

fn copy_rule(x: &DestinationRuleInfo) -> (r: DestinationRuleInfo)
    ensures
        same_rule(*x, r),
{
    DestinationRuleInfo {
        namespace: x.namespace.clone(),
        name: x.name.clone(),
        host: x.host.clone(),
        subsets: copy_subsets(&x.subsets),
    }
}

/// Are they the same destination rules?
pub open spec fn same_rules(v: Seq<DestinationRuleInfo>, r: Seq<DestinationRuleInfo>) -> bool {
    r.len() == v.len() && forall|i: int| 0 <= i < v.len() ==> same_rule(v[i], #[trigger] r[i])
}

fn copy_rules(v: &Vec<DestinationRuleInfo>) -> (r: Vec<DestinationRuleInfo>)
    ensures
        same_rules(v@, r@),
{
    let mut r: Vec<DestinationRuleInfo> = Vec::new();
    let mut i: usize = 0;
    while i < v.len()
        invariant
            i <= v@.len(),
            r@.len() == i,
            forall|j: int| 0 <= j < i ==> same_rule(v@[j], #[trigger] r@[j]),
        decreases v@.len() - i,
    {
        let x: DestinationRuleInfo = copy_rule(&v[i]);
        r.push(x);
        i = i + 1;
    }
    r
}

/// Is it the same mesh?
pub open spec fn same_mesh(x: MeshInfo, r: MeshInfo) -> bool {
    &&& r.installed == x.installed
    &&& same_virtuals(x.virtual_services@, r.virtual_services@)
    &&& same_rules(x.destination_rules@, r.destination_rules@)
}

/// Copy what is known of the mesh.
pub fn copy_mesh(x: &MeshInfo) -> (r: MeshInfo)
    ensures
        same_mesh(*x, r),
{
    MeshInfo {
        installed: x.installed,
        virtual_services: copy_virtuals(&x.virtual_services),
        destination_rules: copy_rules(&x.destination_rules),
    }
}

} // verus!
