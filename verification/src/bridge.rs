//! The event dispatch bridge.
//!
//! A registry maps named UI events to handlers. `register` binds a
//! handler under a name and returns a fresh revocation id, `unregister`
//! revokes by id, and `emit` delivers a payload to every handler
//! currently registered under the emitted name, in registration order.
//! A delivery substitutes the documented default for an absent
//! payload, so a missing payload never faults a handler. Handler
//! invocation is synchronous on the owning context's own timeline; the
//! bridge itself keeps no in-flight state.

use vstd::prelude::*;

use crate::text::str_eq;

verus! {

/// The handler a registration binds. The minimal core knows two: one
/// that reacts to the file-picker event by forwarding the chosen path
/// to the backend, and one that acknowledges click events.
#[derive(Clone, Copy, PartialEq, Eq, Structural, Debug)]
pub enum Handler {
    FilePicker,
    ClickLogger,
}

/// A registration as the contracts see it: its revocation id, the
/// event name it listens under, and the bound handler.
pub struct RegModel {
    pub id: u64,
    pub name: Seq<char>,
    pub handler: Handler,
}

struct Registration {
    id: u64,
    name: String,
    handler: Handler,
}

impl View for Registration {
    type V = RegModel;

    closed spec fn view(&self) -> RegModel {
        RegModel { id: self.id, name: self.name@, handler: self.handler }
    }
}

impl Clone for Registration {
    fn clone(&self) -> (r: Self)
        ensures
            r@ == self@,
    {
        Registration { id: self.id, name: self.name.clone(), handler: self.handler }
    }
}

/// One delivery an emission produced: which registration it reached
/// and the payload the handler received.
pub struct Delivery {
    pub registration_id: u64,
    pub handler: Handler,
    pub payload: String,
}

/// A delivery as the contracts see it.
pub struct DeliveryModel {
    pub registration_id: u64,
    pub handler: Handler,
    pub payload: Seq<char>,
}

impl View for Delivery {
    type V = DeliveryModel;

    open spec fn view(&self) -> DeliveryModel {
        DeliveryModel {
            registration_id: self.registration_id,
            handler: self.handler,
            payload: self.payload@,
        }
    }
}

/// The registry routing named events to handlers.
pub struct Bridge {
    regs: Vec<Registration>,
    next_id: u64,
}

impl View for Bridge {
    type V = Seq<RegModel>;

    closed spec fn view(&self) -> Seq<RegModel> {
        self.regs@.map(|i: int, r: Registration| r@)
    }
}

/// Whether revocation ids appear in strictly increasing order — in
/// particular, each id is bound at most once.
pub open spec fn ids_ordered(regs: Seq<RegModel>) -> bool {
    forall|i: int, j: int|
        0 <= i < j < regs.len() ==> (#[trigger] regs[i]).id < (#[trigger] regs[j]).id
}

/// The registrations left after revoking `id`: all others, in order.
pub open spec fn without_id(regs: Seq<RegModel>, id: u64) -> Seq<RegModel>
    decreases regs.len(),
{
    if regs.len() == 0 {
        Seq::empty()
    } else {
        let rest = without_id(regs.drop_last(), id);
        if regs.last().id == id {
            rest
        } else {
            rest.push(regs.last())
        }
    }
}

/// The registrations an emission of `name` reaches: exactly those
/// registered under that name, in registration order.
pub open spec fn matching(regs: Seq<RegModel>, name: Seq<char>) -> Seq<RegModel>
    decreases regs.len(),
{
    if regs.len() == 0 {
        Seq::empty()
    } else {
        let rest = matching(regs.drop_last(), name);
        if regs.last().name == name {
            rest.push(regs.last())
        } else {
            rest
        }
    }
}

/// The view of an optional payload.
pub open spec fn payload_view(p: Option<&str>) -> Option<Seq<char>> {
    match p {
        Some(s) => Some(s@),
        None => None,
    }
}

/// The payload a handler receives: the emitted one, or the documented
/// default when none was supplied.
pub open spec fn effective_payload(payload: Option<Seq<char>>) -> Seq<char> {
    match payload {
        Some(p) => p,
        None => "no value"@,
    }
}

/// The deliveries an emission of `name` with `payload` produces over
/// the registrations `regs`.
pub open spec fn deliveries(
    regs: Seq<RegModel>,
    name: Seq<char>,
    payload: Option<Seq<char>>,
) -> Seq<DeliveryModel> {
    matching(regs, name).map(
        |k: int, r: RegModel|
            DeliveryModel {
                registration_id: r.id,
                handler: r.handler,
                payload: effective_payload(payload),
            },
    )
}

impl Bridge {
    /// The next revocation id this bridge would hand out.
    pub closed spec fn spec_next_id(&self) -> u64 {
        self.next_id
    }

    /// The bridge's invariant: ids strictly increase along the
    /// registration order and stay below the next id to be handed out.
    pub open spec fn inv(&self) -> bool {
        &&& ids_ordered(self@)
        &&& forall|i: int|
            0 <= i < self@.len() ==> (#[trigger] self@[i]).id < self.spec_next_id()
    }

    /// The next revocation id this bridge would hand out; `register`
    /// asks that it has not reached the end of the id space.
    pub fn next_id(&self) -> (n: u64)
        ensures
            n == self.spec_next_id(),
    {
        self.next_id
    }

    /// A bridge with no registrations.
    pub fn new() -> (b: Bridge)
        ensures
            b.inv(),
            b@ == Seq::<RegModel>::empty(),
            b.spec_next_id() == 0,
    {
        let b = Bridge { regs: Vec::new(), next_id: 0 };
        proof {
            assert(b@ =~= Seq::<RegModel>::empty());
        }
        b
    }

    /// Binds `handler` under `name` and returns the fresh id that
    /// revokes the binding. The id space is bounded by the machine
    /// word, hence the bound on the next id.
    pub fn register(&mut self, name: String, handler: Handler) -> (id: u64)
        requires
            old(self).inv(),
            old(self).spec_next_id() < u64::MAX,
        ensures
            final(self).inv(),
            id == old(self).spec_next_id(),
            final(self)@ == old(self)@.push(RegModel { id, name: name@, handler }),
            final(self).spec_next_id() == old(self).spec_next_id() + 1,
    {
        let id = self.next_id;
        let ghost prior = self@;
        self.next_id = self.next_id + 1;
        self.regs.push(Registration { id, name, handler });
        proof {
            assert(self@ =~= prior.push(RegModel { id, name: name@, handler }));
        }
        id
    }

    /// Revokes the registration `id` names, if any. Revoking an id
    /// that is not bound — because it never was, or because it was
    /// already revoked — changes nothing and is no error.
    pub fn unregister(&mut self, id: u64)
        requires
            old(self).inv(),
        ensures
            final(self).inv(),
            final(self)@ == without_id(old(self)@, id),
            final(self).spec_next_id() == old(self).spec_next_id(),
    {
        let mut kept: Vec<Registration> = Vec::new();
        let n = self.regs.len();
        let mut i: usize = 0;
        while i < n
            invariant
                i <= n,
                n == self.regs.len(),
                kept@.map(|k: int, r: Registration| r@) == without_id(
                    self@.subrange(0, i as int),
                    id,
                ),
            decreases n - i,
        {
            proof {
                assert(self@.subrange(0, i + 1).drop_last() =~= self@.subrange(0, i as int));
                assert(self@.subrange(0, i + 1).last() == self@[i as int]);
            }
            let ghost kept_before = kept@.map(|k: int, r: Registration| r@);
            let r = &self.regs[i];
            assert(r@ == self@[i as int]);
            if r.id != id {
                let c = r.clone();
                kept.push(c);
                proof {
                    assert(kept@.map(|k: int, r: Registration| r@) =~= kept_before.push(
                        self@[i as int],
                    ));
                }
            }
            i = i + 1;
        }
        proof {
            assert(self@.subrange(0, n as int) =~= self@);
        }
        self.regs = kept;
        proof {
            lemma_without_id_shape(old(self)@, id, self.next_id);
        }
    }

    /// Delivers `payload` to every handler currently registered under
    /// `name`, in registration order, and reports the deliveries made.
    /// With no registration under `name` the emission is a no-op that
    /// returns no deliveries.
    pub fn emit(&self, name: &str, payload: Option<&str>) -> (d: Vec<Delivery>)
        ensures
            d@.map(|k: int, x: Delivery| x@) == deliveries(self@, name@, payload_view(payload)),
    {
        let eff: String = match payload {
            Some(p) => String::from_str(p),
            None => String::from_str("no value"),
        };
        let mut d: Vec<Delivery> = Vec::new();
        let n = self.regs.len();
        let mut i: usize = 0;
        while i < n
            invariant
                i <= n,
                n == self.regs.len(),
                eff@ == effective_payload(payload_view(payload)),
                d@.map(|k: int, x: Delivery| x@) == deliveries(
                    self@.subrange(0, i as int),
                    name@,
                    payload_view(payload),
                ),
            decreases n - i,
        {
            proof {
                assert(self@.subrange(0, i + 1).drop_last() =~= self@.subrange(0, i as int));
                assert(self@.subrange(0, i + 1).last() == self@[i as int]);
            }
            let ghost d_before = d@.map(|k: int, x: Delivery| x@);
            let r = &self.regs[i];
            assert(r@ == self@[i as int]);
            if str_eq(r.name.as_str(), name) {
                let payload_copy = eff.clone();
                d.push(
                    Delivery { registration_id: r.id, handler: r.handler, payload: payload_copy },
                );
                proof {
                    assert(d@.map(|k: int, x: Delivery| x@) =~= d_before.push(
                        DeliveryModel {
                            registration_id: self@[i as int].id,
                            handler: self@[i as int].handler,
                            payload: effective_payload(payload_view(payload)),
                        },
                    ));
                    assert(deliveries(self@.subrange(0, i + 1), name@, payload_view(payload))
                        =~= d_before.push(
                        DeliveryModel {
                            registration_id: self@[i as int].id,
                            handler: self@[i as int].handler,
                            payload: effective_payload(payload_view(payload)),
                        },
                    ));
                }
            } else {
                proof {
                    assert(deliveries(self@.subrange(0, i + 1), name@, payload_view(payload))
                        =~= d_before);
                }
            }
            i = i + 1;
        }
        proof {
            assert(self@.subrange(0, n as int) =~= self@);
        }
        d
    }
}

/// Revocation keeps the surviving registrations ordered, keeps every
/// id below any prior bound, and leaves no registration carrying the
/// revoked id.
pub proof fn lemma_without_id_shape(regs: Seq<RegModel>, id: u64, bound: u64)
    requires
        ids_ordered(regs),
        forall|i: int| 0 <= i < regs.len() ==> (#[trigger] regs[i]).id < bound,
    ensures
        ids_ordered(without_id(regs, id)),
        forall|i: int|
            0 <= i < without_id(regs, id).len() ==> (#[trigger] without_id(regs, id)[i]).id
                < bound,
        forall|i: int|
            0 <= i < without_id(regs, id).len() ==> (#[trigger] without_id(regs, id)[i]).id != id,
        forall|i: int|
            0 <= i < without_id(regs, id).len() ==> regs.contains(
                #[trigger] without_id(regs, id)[i],
            ),
    decreases regs.len(),
{
    if regs.len() > 0 {
        lemma_without_id_shape(regs.drop_last(), id, bound);
        let rest = without_id(regs.drop_last(), id);
        assert forall|i: int| 0 <= i < rest.len() implies regs.contains(rest[i]) by {
            assert(regs.drop_last().contains(rest[i]));
            let w = choose|w: int| 0 <= w < regs.drop_last().len() && regs.drop_last()[w] == rest[i];
            assert(regs[w] == rest[i]);
        }
        assert forall|i: int| 0 <= i < rest.len() implies rest[i].id < regs.last().id by {
            assert(regs.drop_last().contains(rest[i]));
            let w = choose|w: int| 0 <= w < regs.drop_last().len() && regs.drop_last()[w] == rest[i];
            assert(regs[w] == rest[i]);
            assert(regs[w].id < regs[regs.len() - 1].id);
        }
    }
}

/// Revoking an id that no registration carries changes nothing.
pub proof fn lemma_unregister_absent_id(regs: Seq<RegModel>, id: u64)
    requires
        forall|i: int| 0 <= i < regs.len() ==> (#[trigger] regs[i]).id != id,
    ensures
        without_id(regs, id) == regs,
    decreases regs.len(),
{
    if regs.len() > 0 {
        lemma_unregister_absent_id(regs.drop_last(), id);
        assert(regs[regs.len() - 1].id != id);
        assert(without_id(regs, id) =~= regs);
    } else {
        assert(without_id(regs, id) =~= regs);
    }
}

/// Law: emitting a name no registration listens under delivers to no
/// handler.
pub proof fn lemma_emit_without_handlers(regs: Seq<RegModel>, name: Seq<char>)
    requires
        forall|i: int| 0 <= i < regs.len() ==> (#[trigger] regs[i]).name != name,
    ensures
        matching(regs, name).len() == 0,
    decreases regs.len(),
{
    if regs.len() > 0 {
        lemma_emit_without_handlers(regs.drop_last(), name);
        assert(regs[regs.len() - 1].name != name);
    }
}

/// Law: an emission reaches exactly the registrations bound under the
/// emitted name — every one of them, nothing else — and reaches them
/// in registration order; with ids bound at most once, none is reached
/// twice.
pub proof fn lemma_emit_all_in_order(regs: Seq<RegModel>, name: Seq<char>)
    requires
        ids_ordered(regs),
    ensures
        forall|k: int|
            0 <= k < regs.len() && (#[trigger] regs[k]).name == name ==> matching(
                regs,
                name,
            ).contains(regs[k]),
        forall|k: int|
            0 <= k < matching(regs, name).len() ==> (#[trigger] matching(regs, name)[k]).name
                == name && regs.contains(matching(regs, name)[k]),
        ids_ordered(matching(regs, name)),
    decreases regs.len(),
{
    if regs.len() > 0 {
        assert(ids_ordered(regs.drop_last()));
        lemma_emit_all_in_order(regs.drop_last(), name);
        let rest = matching(regs.drop_last(), name);
        assert forall|k: int|
            0 <= k < regs.len() && (#[trigger] regs[k]).name == name implies matching(
            regs,
            name,
        ).contains(regs[k]) by {
            if k < regs.len() - 1 {
                assert(regs.drop_last()[k] == regs[k]);
                assert(rest.contains(regs[k]));
                let w = choose|w: int| 0 <= w < rest.len() && rest[w] == regs[k];
                assert(matching(regs, name)[w] == regs[k]);
            } else {
                assert(matching(regs, name).last() == regs[k]);
            }
        }
        assert forall|k: int| 0 <= k < matching(regs, name).len() implies (#[trigger] matching(
            regs,
            name,
        )[k]).name == name && regs.contains(matching(regs, name)[k]) by {
            if k < rest.len() {
                assert(matching(regs, name)[k] == rest[k]);
                assert(regs.drop_last().contains(rest[k]));
                let w = choose|w: int|
                    0 <= w < regs.drop_last().len() && regs.drop_last()[w] == rest[k];
                assert(regs[w] == rest[k]);
            } else {
                assert(matching(regs, name)[k] == regs.last());
                assert(regs[regs.len() - 1] == regs.last());
            }
        }
        assert forall|i: int, j: int|
            0 <= i < j < matching(regs, name).len() implies (#[trigger] matching(
            regs,
            name,
        )[i]).id < (#[trigger] matching(regs, name)[j]).id by {
            if j < rest.len() {
                assert(matching(regs, name)[i] == rest[i]);
                assert(matching(regs, name)[j] == rest[j]);
            } else {
                assert(matching(regs, name)[j] == regs.last());
                assert(matching(regs, name)[i] == rest[i]);
                assert(regs.drop_last().contains(rest[i]));
                let w = choose|w: int|
                    0 <= w < regs.drop_last().len() && regs.drop_last()[w] == rest[i];
                assert(regs[w] == rest[i]);
                assert(regs[w].id < regs[regs.len() - 1].id);
            }
        }
    }
}

/// Law: revoking a registration right after creating it restores the
/// registry exactly, so a following emission delivers precisely what
/// it would have delivered before the registration; and a second
/// revocation with the same id changes nothing and touches no other
/// registration.
pub proof fn lemma_register_unregister_round_trip(regs: Seq<RegModel>, reg: RegModel)
    requires
        forall|i: int| 0 <= i < regs.len() ==> (#[trigger] regs[i]).id != reg.id,
    ensures
        without_id(regs.push(reg), reg.id) == regs,
        without_id(without_id(regs.push(reg), reg.id), reg.id) == regs,
        forall|name: Seq<char>|
            #[trigger] matching(without_id(regs.push(reg), reg.id), name) == matching(regs, name),
{
    assert(regs.push(reg).drop_last() =~= regs);
    assert(regs.push(reg).last() == reg);
    lemma_unregister_absent_id(regs, reg.id);
}

} // verus!
