//! Laws of the transaction semantics: per-tier name uniqueness, dependency
//! gating on implementing an interface, and dependent gating on removing
//! one, each proved for every state and every input the law speaks of.

use vstd::prelude::*;
use crate::service::ServiceView;
use crate::service::has_service_named;
use crate::interface::InterfaceView;
use crate::interface::dep_includes;
use crate::object::ObjectView;
use crate::object::distinct_interfaces;
use crate::objtrans::CommandView;
use crate::objtrans::TransactionError;
use crate::objtrans::Visibility;
use crate::objtrans::all_deps_met;
use crate::objtrans::all_services_present;
use crate::objtrans::satisfies_dependency;
use crate::objtrans::some_dependent;
use crate::objtrans::step;
use crate::objtrans::run;
use crate::objtrans::version_conflict;
use crate::version::compatible;

verus! {

/// Service names are unique per tier, not globally: once a name is taken in
/// a tier, adding it there again fails with `DuplicateName`, while adding it
/// at a different tier that lacks the name succeeds.
pub proof fn lemma_service_name_uniqueness_per_tier(
    s: ObjectView,
    srv: ServiceView,
    srv2: ServiceView,
    v: Visibility,
    w: Visibility,
)
    requires
        step(s, CommandView::AddSrv(v, srv)) is Ok,
        srv2.name == srv.name,
        w != v,
        !has_service_named(s.services_at(w), srv2.name),
    ensures
        ({
            let s1 = step(s, CommandView::AddSrv(v, srv))->Ok_0;
            &&& step(s1, CommandView::AddSrv(v, srv2)) == Err::<ObjectView, TransactionError>(
                TransactionError::DuplicateName,
            )
            &&& step(s1, CommandView::AddSrv(w, srv2)) is Ok
        }),
{
    let s1 = step(s, CommandView::AddSrv(v, srv))->Ok_0;
    let pushed = s.services_at(v).push(srv);
    assert(s1.services_at(v) == pushed);
    assert(pushed[pushed.len() - 1].name == srv2.name);
    assert(has_service_named(s1.services_at(v), srv2.name));
    assert(s1.services_at(w) == s.services_at(w));
}

/// Dependency gating: implementing `b`, which depends on `a`, fails with
/// `UnmetDependency` while nothing implemented satisfies `a`; implementing
/// `a` first and then `b`, in one batch, succeeds, provided the object
/// offers the mandated services publicly and no implemented interface
/// conflicts on version.
pub proof fn lemma_dependency_gating(s: ObjectView, a: InterfaceView, b: InterfaceView)
    requires
        b.dep == seq![a],
        a.dep.len() == 0,
        !satisfies_dependency(s.ints, a),
        all_services_present(s.pubsrv, a.serv),
        all_services_present(s.pubsrv, b.serv),
        !version_conflict(s.ints, a),
        !version_conflict(s.ints, b),
        !(a.pack == b.pack && a.name == b.name && !compatible(a.ver, b.ver)),
    ensures
        step(s, CommandView::ImplInt(b)) == Err::<ObjectView, TransactionError>(
            TransactionError::UnmetDependency,
        ),
        run(s, seq![CommandView::ImplInt(a), CommandView::ImplInt(b)]) is Ok,
{
    // Implementing b directly: its one dependency, a, is unsatisfied.
    assert(b.dep[0] == a);
    assert(!all_deps_met(s.ints, b.dep));

    // Implementing a succeeds: no dependencies, services present, and no
    // version conflict.
    assert(all_deps_met(s.ints, a.dep));
    // a is not yet implemented: an exactly equal entry would satisfy the
    // dependency on a, since compatibility is reflexive.
    assert(!dep_includes(s.ints, a)) by {
        if dep_includes(s.ints, a) {
            let j = choose|j: int| 0 <= j < s.ints.len() && s.ints[j] == a;
            assert(compatible(s.ints[j].ver, a.ver));
            assert(satisfies_dependency(s.ints, a));
        }
    }
    let s1 = ObjectView { ints: s.ints.push(a), ..s };
    assert(step(s, CommandView::ImplInt(a)) == Ok::<ObjectView, TransactionError>(s1));

    // Implementing b on the new state succeeds: a itself satisfies the
    // dependency, and a raises no version conflict with b.
    assert(s1.ints[s1.ints.len() - 1] == a);
    assert(compatible(a.ver, a.ver));
    assert(satisfies_dependency(s1.ints, a));
    assert(all_deps_met(s1.ints, b.dep));
    assert(!version_conflict(s1.ints, b)) by {
        if version_conflict(s1.ints, b) {
            let j = choose|j: int|
                0 <= j < s1.ints.len() && s1.ints[j].pack == b.pack && s1.ints[j].name == b.name
                    && !compatible(s1.ints[j].ver, b.ver);
            if j < s.ints.len() {
                assert(version_conflict(s.ints, b));
            } else {
                assert(s1.ints[j] == a);
            }
        }
    }
    assert(step(s1, CommandView::ImplInt(b)) is Ok);

    let cmds = seq![CommandView::ImplInt(a), CommandView::ImplInt(b)];
    let s2 = step(s1, CommandView::ImplInt(b))->Ok_0;
    assert(cmds[0] == CommandView::ImplInt(a));
    assert(cmds.skip(1) =~= seq![CommandView::ImplInt(b)]);
    assert(run(s, cmds) == run(s1, seq![CommandView::ImplInt(b)]));
    assert(seq![CommandView::ImplInt(b)][0] == CommandView::ImplInt(b));
    assert(seq![CommandView::ImplInt(b)].skip(1) =~= Seq::<CommandView>::empty());
    assert(run(s1, seq![CommandView::ImplInt(b)]) == run(s2, Seq::<CommandView>::empty()));
    assert(run(s2, Seq::<CommandView>::empty()) == Ok::<ObjectView, TransactionError>(s2));
    assert(run(s, cmds) is Ok);
}

/// Removal gating: unimplementing `a` while `b`, which depends on `a`, is
/// still implemented fails with `DependentInterfaceActive`; unimplementing
/// `b` first and then `a`, in one batch, succeeds, provided nothing else
/// depends on either.
pub proof fn lemma_removal_gating(s: ObjectView, a: InterfaceView, b: InterfaceView)
    requires
        distinct_interfaces(s.ints),
        a != b,
        dep_includes(s.ints, a),
        dep_includes(s.ints, b),
        dep_includes(b.dep, a),
        forall|j: int|
            0 <= j < s.ints.len() && s.ints[j] != b ==> !dep_includes(
                (#[trigger] s.ints[j]).dep,
                a,
            ),
        forall|j: int| 0 <= j < s.ints.len() ==> !dep_includes((#[trigger] s.ints[j]).dep, b),
    ensures
        step(s, CommandView::UnimplInt(a)) == Err::<ObjectView, TransactionError>(
            TransactionError::DependentInterfaceActive,
        ),
        run(s, seq![CommandView::UnimplInt(b), CommandView::UnimplInt(a)]) is Ok,
{
    // Removing a directly: b is implemented and depends on a.
    let jb = choose|j: int| 0 <= j < s.ints.len() && s.ints[j] == b;
    assert(dep_includes(s.ints[jb].dep, a));
    assert(some_dependent(s.ints, a));

    // Removing b succeeds: nothing depends on b.
    assert(!some_dependent(s.ints, b));
    let kb = crate::objtrans::index_of_interface(s.ints, b);
    assert(0 <= kb < s.ints.len() && s.ints[kb] == b);
    let s1 = ObjectView { ints: s.ints.remove(kb), ..s };
    assert(step(s, CommandView::UnimplInt(b)) == Ok::<ObjectView, TransactionError>(s1));
    s.ints.remove_ensures(kb);

    // a is still implemented afterward: it sat at an index other than kb.
    let ja = choose|j: int| 0 <= j < s.ints.len() && s.ints[j] == a;
    assert(s.ints[ja] != s.ints[kb]);
    assert(dep_includes(s1.ints, a)) by {
        if ja < kb {
            assert(s1.ints[ja] == a);
        } else {
            assert(s1.ints[ja - 1] == a);
        }
    }

    // Nothing left depends on a: every remaining entry is an original entry
    // other than b.
    assert(!some_dependent(s1.ints, a)) by {
        if some_dependent(s1.ints, a) {
            let j = choose|j: int| 0 <= j < s1.ints.len() && dep_includes(s1.ints[j].dep, a);
            assert(s1.ints[j] == (if j < kb {
                s.ints[j]
            } else {
                s.ints[j + 1]
            }));
            assert(s1.ints[j] != b);
        }
    }
    assert(step(s1, CommandView::UnimplInt(a)) is Ok);

    let cmds = seq![CommandView::UnimplInt(b), CommandView::UnimplInt(a)];
    let s2 = step(s1, CommandView::UnimplInt(a))->Ok_0;
    assert(cmds[0] == CommandView::UnimplInt(b));
    assert(cmds.skip(1) =~= seq![CommandView::UnimplInt(a)]);
    assert(run(s, cmds) == run(s1, seq![CommandView::UnimplInt(a)]));
    assert(seq![CommandView::UnimplInt(a)][0] == CommandView::UnimplInt(a));
    assert(seq![CommandView::UnimplInt(a)].skip(1) =~= Seq::<CommandView>::empty());
    assert(run(s1, seq![CommandView::UnimplInt(a)]) == run(s2, Seq::<CommandView>::empty()));
    assert(run(s2, Seq::<CommandView>::empty()) == Ok::<ObjectView, TransactionError>(s2));
    assert(run(s, cmds) is Ok);
}

} // verus!
