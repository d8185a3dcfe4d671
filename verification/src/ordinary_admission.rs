//! The binding of the in-memory admission queue to one committed application
//! head. A queue result is never an execution permit; the caller holds the
//! admission lock and rechecks every entry against a changed head.
use vstd::prelude::*;
use crate::block_meter::digest_eq;
use crate::text::str_eq;

verus! {

/// The committed head and configuration digest a queue is bound to.
pub struct Binding {
    pub head: String,
    pub config_digest: [u8; 32],
}

/// The admission queue: unbound, or bound to a head with its reservation
/// ledger.
pub struct OrdinaryAdmissionQueue<L> {
    pub bound: Option<(Binding, L)>,
}

/// Whether a head is a committed lowercase 32-byte app hash: 64 characters,
/// each a digit or `a` through `f`.
pub open spec fn is_app_hash(h: Seq<char>) -> bool {
    h.len() == 64 && forall|i: int| 0 <= i < h.len() ==> ('0' <= #[trigger] h[i] <= '9' || 'a' <= h[i] <= 'f')
}

fn app_hash(head: &str) -> (r: bool)
    ensures
        r == is_app_hash(head@),
{
    if head.unicode_len() != 64 {
        return false;
    }
    let mut i: usize = 0;
    while i < 64
        invariant
            i <= 64,
            head@.len() == 64,
            forall|j: int| 0 <= j < i ==> ('0' <= #[trigger] head@[j] <= '9' || 'a' <= head@[j] <= 'f'),
        decreases 64 - i,
    {
        let c = head.get_char(i);
        if !(('0' <= c && c <= '9') || ('a' <= c && c <= 'f')) {
            return false;
        }
        i = i + 1;
    }
    true
}

impl<L> OrdinaryAdmissionQueue<L> {
    pub open spec fn binding_view(&self) -> Option<(Seq<char>, Seq<u8>)> {
        match self.bound {
            Some((b, _)) => Some((b.head@, b.config_digest@)),
            None => None,
        }
    }

    /// Reset to a committed head. `prepared` is the context prepared for the
    /// configuration: its digest and a fresh reservation ledger, or why it
    /// could not be prepared. A failed reset keeps the previous queue whole;
    /// an unchanged head and configuration keep the queue and its ledger; a
    /// changed head or configuration discards the stale reservations and
    /// installs the fresh ledger.
    pub fn reset(&mut self, head: &str, config_version: u32, prepared: Result<([u8; 32], L), &'static str>) -> (r: Result<
        (),
        &'static str,
    >)
        ensures
            !is_app_hash(head@) ==> r == Err::<(), &'static str>(
                "Admission queue requires a committed lowercase 32-byte app hash",
            ) && *final(self) == *old(self),
            is_app_hash(head@) && config_version != 1 ==> r == Err::<(), &'static str>(
                "Unsupported ordinary queue configuration",
            ) && *final(self) == *old(self),
            is_app_hash(head@) && config_version == 1 ==> match prepared {
                Err(e) => r == Err::<(), &'static str>(e) && *final(self) == *old(self),
                Ok((digest, ledger)) => r is Ok && final(self).binding_view() == Some((head@, digest@)) && (old(
                    self,
                ).binding_view() == Some((head@, digest@)) ==> *final(self) == *old(self)) && (old(
                    self,
                ).binding_view() != Some((head@, digest@)) ==> (final(self).bound matches Some((b, l)) && b.head@
                    == head@ && b.config_digest == digest && l == ledger)),
            },
    {
        if !app_hash(head) {
            return Err("Admission queue requires a committed lowercase 32-byte app hash");
        }
        if config_version != 1 {
            return Err("Unsupported ordinary queue configuration");
        }
        let (digest, ledger) = match prepared {
            Err(e) => return Err(e),
            Ok(p) => p,
        };
        let unchanged = match &self.bound {
            Some((b, _)) => str_eq(b.head.as_str(), head) && digest_eq(&b.config_digest, &digest),
            None => false,
        };
        if unchanged {
            return Ok(());
        }
        self.bound = Some((Binding { head: head.to_string(), config_digest: digest }, ledger));
        Ok(())
    }

    /// The ledger of the committed context, for a reservation or an
    /// eviction; refused while the queue has no committed context.
    pub fn ledger_mut(&mut self) -> (r: Result<&mut L, &'static str>)
        ensures
            old(self).bound is None ==> r is Err && r->Err_0 == "Admission queue has no committed context"
                && *final(self) == *old(self),
            old(self).bound matches Some((b, l)) ==> r is Ok && *r->Ok_0 == l && final(self).bound == Some(
                (b, *final(r->Ok_0)),
            ),
    {
        match &mut self.bound {
            None => Err("Admission queue has no committed context"),
            Some((_, ledger)) => Ok(ledger),
        }
    }

    /// Whether the queue is bound to a committed context.
    pub fn is_bound(&self) -> (r: bool)
        ensures
            r == self.bound is Some,
    {
        self.bound.is_some()
    }
}

} // verus!
