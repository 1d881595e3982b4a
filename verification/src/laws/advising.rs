//! What is advised for what went wrong.

use crate::advice;
use crate::collect::graph;
use crate::model::{ClusterGraph, ContainerStatusInfo};
use crate::quantity;
use crate::rules::balancer;
use crate::rules::eviction;
use crate::rules::hpa;
use crate::rules::pod;
use crate::rules::storage;
use crate::rules::targets;
use crate::scan;
use vstd::prelude::*;

verus! {

/// An image whose tag does not exist, and a registry that refuses, are told apart;
/// a missing tag counts before a refusal.
pub proof fn advice_on_images(low: Seq<char>, image: Seq<char>)
    ensures
        ({
            let missing = scan::contains(low, "not found"@) || scan::contains(
                low,
                "manifest unknown"@,
            );
            let refused = scan::contains(low, "unauthorized"@) || scan::contains(low, "denied"@)
                || scan::contains(low, "403"@);
            &&& missing ==> pod::image_advice(low, image) == "The tag in "@ + image
                + " doesn't exist in the registry. Fix the tag or push the image, then roll out again."@
            &&& !missing && refused ==> pod::image_advice(low, image)
                == "The node can't authenticate to the registry. Check imagePullSecrets or the node's registry permissions."@
            &&& !missing && !refused ==> pod::image_advice(low, image)
                == "Check the image name and tag, and that nodes can reach and authenticate to the registry."@
        }),
{
}

/// The usual exit codes are explained.
pub proof fn advice_on_exit_codes()
    ensures
        pod::exit_hint(Some(1))
            == "Exit code 1 usually means the application hit an error on start-up."@,
        pod::exit_hint(Some(126))
            == "Exit code 126: the command exists but can't be executed (permissions or architecture)."@,
        pod::exit_hint(Some(127))
            == "Exit code 127: the command or entrypoint wasn't found in the image."@,
        pod::exit_hint(Some(137))
            == "Exit code 137: the process was killed, often by a failing liveness probe."@,
        pod::exit_hint(Some(139))
            == "Exit code 139: the process crashed with a segmentation fault."@,
        pod::exit_hint(Some(143)) == "Exit code 143: the process was stopped with SIGTERM."@,
        forall|c: Option<i32>|
            c != Some(1i32) && c != Some(126i32) && c != Some(127i32) && c != Some(137i32) && c
                != Some(139i32) && c != Some(143i32) ==> #[trigger] pod::exit_hint(c)
                == "The container keeps exiting shortly after it starts."@,
{
}

/// A container that ran out of memory under a limit is advised twice the limit; one
/// without a limit, to set one.
pub proof fn advice_on_memory(c: ContainerStatusInfo)
    ensures
        c.memory_limit_bytes matches Some(l) ==> (0 <= l && 2 * l <= i64::MAX ==> pod::oom_advice(c)
            == "Raise the memory limit for "@ + c.name@ + " (for example to "@
            + quantity::size_text(2 * l)
            + ") and set the request to match, or find what grew the process's memory."@),
        c.memory_limit_bytes is None ==> pod::oom_advice(c) == "Set a memory request and limit on "@
            + c.name@ + " so the scheduler can place it safely."@,
{
}

/// Does the scheduler say that the nodes are short of processor time?
pub open spec fn lacks_cpu(msg: Seq<char>) -> bool {
    scan::contains(msg, "Insufficient cpu"@)
}

/// A pod that asks for more processor time than any node has is advised so; where
/// the nodes are full, that they are; and else what the scheduler's message says.
pub proof fn advice_on_scheduling(msg: Seq<char>, cpu: int, node_cpu: int)
    ensures
        ({
            let a = pod::schedule_advice(msg, cpu, node_cpu);
            let memory = scan::contains(msg, "Insufficient memory"@);
            let taint = scan::contains(msg, "untolerated taint"@);
            let affinity = scan::contains(msg, "affinity"@) || scan::contains(
                msg,
                "node selector"@,
            );
            let claim = scan::contains(msg, "PersistentVolumeClaim"@);
            &&& lacks_cpu(msg) && cpu > node_cpu > 0 ==> a == "No node is big enough for a "@
                + quantity::cpu_text(cpu)
                + " CPU request. Lower the request or add a node group with larger instances."@
            &&& lacks_cpu(msg) && !(cpu > node_cpu > 0) ==> a
                == "Nodes are full on CPU. Lower requests, remove idle workloads, or add nodes (check the cluster autoscaler)."@
            &&& !lacks_cpu(msg) && memory ==> a
                == "Nodes don't have enough free memory for this request. Lower it or add capacity."@
            &&& !lacks_cpu(msg) && !memory && taint ==> a
                == "The pod has no toleration for the taints on the available nodes. Add a toleration or schedule it onto untainted nodes."@
            &&& !lacks_cpu(msg) && !memory && !taint && affinity ==> a
                == "No node matches the pod's nodeSelector or affinity rules. Check the labels on your nodes."@
            &&& !lacks_cpu(msg) && !memory && !taint && !affinity && claim ==> a
                == "The pod is waiting on a PersistentVolumeClaim that isn't bound. Check the claim and its storage class."@
        }),
{
}

/// The largest node is at least as large as any, and is one of them.
pub proof fn the_largest_node_is_the_largest(g: ClusterGraph, i: int)
    requires
        0 <= i < g.nodes@.len(),
    ensures
        pod::largest_cpu(g) >= g.nodes@[i].cpu_allocatable_milli,
        exists|k: int|
            0 <= k < g.nodes@.len() && pod::largest_cpu(g)
                == (#[trigger] g.nodes@[k]).cpu_allocatable_milli,
        pod::largest_memory(g) >= g.nodes@[i].memory_allocatable_bytes,
        exists|k: int|
            0 <= k < g.nodes@.len() && pod::largest_memory(g)
                == (#[trigger] g.nodes@[k]).memory_allocatable_bytes,
{
    let n = g.nodes@.len() as int;
    let a = |i: int| g.nodes@[i].cpu_allocatable_milli as int;
    let b = |i: int| g.nodes@[i].memory_allocatable_bytes as int;
    lemma_largest(n, a);
    lemma_largest(n, b);
    assert(a(i) <= pod::largest_cpu(g));
    assert(b(i) <= pod::largest_memory(g));
    let k = choose|k: int| 0 <= k < n && #[trigger] a(k) == crate::pick::largest(n, a)->0;
    assert(g.nodes@[k].cpu_allocatable_milli == pod::largest_cpu(g));
    let m = choose|m: int| 0 <= m < n && #[trigger] b(m) == crate::pick::largest(n, b)->0;
    assert(g.nodes@[m].memory_allocatable_bytes == pod::largest_memory(g));
}

proof fn lemma_largest(n: int, f: spec_fn(int) -> int)
    requires
        n > 0,
    ensures
        crate::pick::largest(n, f) is Some,
        forall|i: int| 0 <= i < n ==> #[trigger] f(i) <= crate::pick::largest(n, f)->0,
        exists|i: int| 0 <= i < n && #[trigger] f(i) == crate::pick::largest(n, f)->0,
    decreases n,
{
    if n > 1 {
        lemma_largest(n - 1, f);
        let m = crate::pick::largest(n - 1, f)->0;
        let k = choose|k: int| 0 <= k < n - 1 && #[trigger] f(k) == m;
        assert(f(k) == m);
        assert(f(n - 1) > m || crate::pick::largest(n, f)->0 == f(k));
        assert(f(n - 1) <= m || crate::pick::largest(n, f)->0 == f(n - 1));
    } else {
        assert(crate::pick::largest(0, f) is None);
        assert(crate::pick::largest(1, f) == Some(f(0)));
    }
}

/// A storage class that does not exist, and a volume that was not made, are told
/// apart.
pub proof fn advice_on_claims(msg: Seq<char>)
    ensures
        ({
            let unknown = scan::contains(msg, "not found"@) && scan::contains(msg, "storageclass"@);
            let waiting = scan::contains(msg, "waiting for a volume to be created"@)
                || scan::contains(msg, "ExternalProvisioning"@);
            &&& unknown ==> storage::claim_advice(msg)
                == "The storage class doesn't exist. Use one from kubectl get storageclass."@
            &&& !unknown && waiting ==> storage::claim_advice(msg)
                == "The CSI driver hasn't created the volume. Check the driver's controller pods (for EBS: ebs-csi-controller) and its IAM permissions."@
            &&& !unknown && !waiting ==> storage::claim_advice(msg)
                == "Check the storage class exists and its provisioner is running."@
        }),
{
}

/// Pods that were evicted for their files, for memory and for something else are
/// told apart.
pub proof fn advice_on_evictions(msg: Seq<char>)
    ensures
        scan::contains(msg, "ephemeral-storage"@) ==> eviction::eviction_advice(msg)
            == "Set ephemeral-storage requests and limits, and stop the app writing large files to its container filesystem."@,
        !scan::contains(msg, "ephemeral-storage"@) && scan::contains(msg, "memory"@)
            ==> eviction::eviction_advice(msg)
            == "Set memory requests that reflect real usage so the scheduler doesn't overpack nodes."@,
        !scan::contains(msg, "ephemeral-storage"@) && !scan::contains(msg, "memory"@)
            ==> eviction::eviction_advice(msg)
            == "Check the node's pressure conditions around the eviction time."@,
{
}

/// Metrics that can't be had, and requests that are missing, are told apart.
pub proof fn advice_on_metrics(msg: Seq<char>)
    ensures
        ({
            let source = scan::contains(msg, "metrics.k8s.io"@) || scan::contains(
                msg,
                "unable to fetch metrics"@,
            ) || scan::contains(msg, "unable to get metrics"@);
            &&& source ==> hpa::metrics_advice(msg)
                == "Install or fix metrics-server, and make sure the target pods set CPU/memory requests (utilisation targets need them)."@
            &&& !source && scan::contains(msg, "missing request"@) ==> hpa::metrics_advice(msg)
                == "Set CPU or memory requests on every container in the target; utilisation targets need them."@
            &&& !source && !scan::contains(msg, "missing request"@) ==> hpa::metrics_advice(msg)
                == "Check the metric source named above is available."@
        }),
{
}

/// Subnets that are not tagged, and quotas that are used up, are told apart.
pub proof fn advice_on_balancers(message: Seq<char>, low: Seq<char>)
    ensures
        ({
            let subnet = scan::contains(message, "subnet"@);
            let quota = scan::contains(low, "quota"@) || scan::contains(message, "LimitExceeded"@);
            &&& subnet ==> balancer::failure_advice(message, low)
                == "Check that your subnets are tagged for load balancers (on AWS: kubernetes.io/role/elb or internal-elb)."@
            &&& !subnet && quota ==> balancer::failure_advice(message, low)
                == "The cloud account hit a load balancer quota. Remove unused load balancers or request a higher limit."@
        }),
{
}

/// A health check that gets the wrong status, one that times out and one that can't
/// connect are told apart; the first names the path of the readiness probe where
/// there is one.
pub proof fn advice_on_targets(hc: Seq<char>, path: Seq<char>)
    ensures
        targets::lb_reason_advice("Target.Timeout"@, hc, None)
            == "The load balancer can't reach the targets in time. Most often a security group doesn't let the load balancer reach the node or pod port, or a NetworkPolicy doesn't admit the VPC CIDR."@,
        targets::lb_reason_advice("Target.FailedHealthChecks"@, hc, None)
            == "Health check connections fail ("@ + hc
            + "). Check the app listens on that port and security groups allow it."@,
        targets::lb_reason_advice("Target.ResponseCodeMismatch"@, hc, Some(path))
            == targets::lb_reason_advice("Target.ResponseCodeMismatch"@, hc, None)
            + (" Your readiness probe uses "@ + path + ", which is usually the right path."@),
{
    reveal_strlit("Target.Timeout");
    reveal_strlit("Target.FailedHealthChecks");
    reveal_strlit("Target.ResponseCodeMismatch");
    assert("Target.Timeout"@.len() == 14);
    assert("Target.FailedHealthChecks"@.len() == 25);
    assert("Target.ResponseCodeMismatch"@.len() == 27);
    let a = targets::lb_reason_advice("Target.ResponseCodeMismatch"@, hc, Some(path));
    let b = targets::lb_reason_advice("Target.ResponseCodeMismatch"@, hc, None);
    assert(a =~= b + (" Your readiness probe uses "@ + path
        + ", which is usually the right path."@));
}

/// What an error of the cluster's API means, by the first of these that it holds:
/// an expired login, refused credentials, missing permission, a missing helper, an
/// unknown address, an address that can't be reached, a certificate.
pub proof fn errors_are_explained(l: Seq<char>)
    ensures
        ({
            let expired = scan::contains(l, "expiredtoken"@) || scan::contains(
                l,
                "token has expired"@,
            ) || scan::contains(l, "sso session"@);
            let refused = scan::contains(l, "unauthorized"@) || scan::contains(l, "401"@);
            let forbidden = scan::contains(l, "forbidden"@) || scan::contains(l, "403"@);
            let helper = (scan::contains(l, "exec"@) || scan::contains(l, "credential"@)) && (
            scan::contains(l, "no such file"@) || scan::contains(l, "not found"@));
            let unknown = scan::contains(l, "dns error"@) || scan::contains(l, "failed to lookup"@)
                || scan::contains(l, "nodename nor servname"@) || scan::contains(
                l,
                "name or service not known"@,
            );
            let far = scan::contains(l, "connect"@) || scan::contains(l, "connection refused"@)
                || scan::contains(l, "timed out"@) || scan::contains(l, "unreachable"@);
            let certificate = scan::contains(l, "certificate"@) || scan::contains(l, "tls"@);
            &&& expired ==> advice::remedy(l) == Some(
                "Your cloud login has expired. Run `aws sso login` (or your provider's login command), then select Refresh."@,
            )
            &&& !expired && refused ==> advice::remedy(l) == Some(
                "The cluster rejected your credentials. Check that your kubeconfig user is still valid for this cluster."@,
            )
            &&& !expired && !refused && forbidden ==> advice::remedy(l) == Some(
                "You're connected, but your credentials aren't allowed to read this cluster. See docs/rbac.yaml for the permissions Tessera needs."@,
            )
            &&& !expired && !refused && !forbidden && helper ==> advice::remedy(l) == Some(
                "Couldn't run the login helper your kubeconfig uses (for example `aws` or `gke-gcloud-auth-plugin`). Check it's installed and on your PATH."@,
            )
            &&& !expired && !refused && !forbidden && !helper && unknown ==> advice::remedy(l)
                == Some(
                "Can't find this cluster's API server address. The cluster may have been deleted, or you may need a VPN or private DNS."@,
            )
            &&& !expired && !refused && !forbidden && !helper && !unknown && far ==> advice::remedy(
                l,
            ) == Some(
                "Can't reach this cluster's API server. It may have been deleted or stopped, or you may need a VPN or network access."@,
            )
            &&& !expired && !refused && !forbidden && !helper && !unknown && !far && certificate
                ==> advice::remedy(l) == Some(
                "Couldn't verify the cluster's TLS certificate. The kubeconfig may be out of date for this cluster."@,
            )
            &&& !expired && !refused && !forbidden && !helper && !unknown && !far && !certificate
                ==> advice::remedy(l) is None
        }),
{
}

/// A list that may not be had, and one that the cluster does not have, are told
/// apart.
pub proof fn failed_lists_are_explained(what: Seq<char>, error: Seq<char>, low: Seq<char>)
    ensures
        ({
            let denied = scan::contains(error, "403"@) || scan::contains(low, "forbidden"@);
            let absent = scan::contains(error, "404"@) || scan::contains(
                error,
                "the server could not find"@,
            );
            &&& denied ==> graph::failure(what, error, low) == "Your credentials can't list "@
                + what + " across namespaces, so they're missing from the map."@
            &&& !denied && absent ==> graph::failure(what, error, low)
                == "This cluster doesn't serve "@ + what + "."@
            &&& !denied && !absent ==> graph::failure(what, error, low) == "Couldn't list "@ + what
                + ": "@ + error
        }),
{
}

} // verus!
