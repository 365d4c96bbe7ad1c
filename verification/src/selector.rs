//! The interface selector: the one piece of state carried across cycles.
//!
//! The selector holds the identity of the previously chosen interface, or
//! nothing on the first cycle.  Given the freshly enumerated interface
//! list it prefers continuity: when the previous identity still occurs in
//! the list, the first entry carrying it is chosen and the state is left
//! unchanged; otherwise the first-listed interface is chosen and the state
//! is re-bound to its identity, which is a "first selection" event when no
//! identity was held and an "interface switch" event when one was.  An
//! empty list is the "no interface available" failure, fatal for the cycle
//! only, and leaves the state unchanged.

use vstd::prelude::*;

use crate::ifaddrs::{Interface, InterfaceModel};
use crate::OsError;

verus! {

/// The selection events worth logging: the very first binding of an
/// identity, and a switch away from an identity that disappeared from the
/// list.  Choosing the same interface again is no event.
#[derive(Clone, Copy, Debug, PartialEq, Eq, Structural)]
pub enum SelectionEvent {
    FirstSelection,
    InterfaceSwitch,
}

/// The selector's state across cycles: the identity of the previously
/// chosen interface, absent before the first selection.
pub struct Selector {
    /// The identity the selector is bound to.
    pub last_name: Option<String>,
}

/// The position of the first interface in the list that carries the given
/// identity.
pub open spec fn first_match(ifs: Seq<InterfaceModel>, name: Seq<char>) -> Option<int>
    decreases ifs.len(),
{
    if ifs.len() == 0 {
        None
    } else if ifs[0].name == name {
        Some(0)
    } else {
        match first_match(ifs.skip(1), name) {
            Some(i) => Some(i + 1),
            None => None,
        }
    }
}

/// The first match lies in the list, carries the identity, and no earlier
/// entry does; when there is no match, no entry carries the identity.
pub proof fn lemma_first_match(ifs: Seq<InterfaceModel>, name: Seq<char>)
    ensures
        (match first_match(ifs, name) {
            Some(i) => 0 <= i < ifs.len() && ifs[i].name == name && forall|j: int|
                0 <= j < i ==> (#[trigger] ifs[j]).name != name,
            None => forall|j: int| 0 <= j < ifs.len() ==> (#[trigger] ifs[j]).name != name,
        }),
    decreases ifs.len(),
{
    if ifs.len() == 0 {
    } else {
        lemma_first_match(ifs.skip(1), name);
        assert(forall|j: int| 1 <= j < ifs.len() ==> #[trigger] ifs[j] == ifs.skip(1)[j - 1]);
    }
}

/// The position of the first interface named `name`, or nothing when none
/// is.
fn find_by_name(ifs: &Vec<Interface>, name: &String) -> (r: Option<usize>)
    ensures
        (match r {
            Some(i) => first_match(ifs@.map_values(|iface: Interface| iface@), name@) == Some(
                i as int,
            ),
            None => first_match(ifs@.map_values(|iface: Interface| iface@), name@) is None,
        }),
{
    let ghost views = ifs@.map_values(|iface: Interface| iface@);
    let mut i: usize = 0;
    while i < ifs.len()
        invariant
            views == ifs@.map_values(|iface: Interface| iface@),
            i <= ifs@.len(),
            forall|j: int| 0 <= j < i ==> (#[trigger] views[j]).name != name@,
        decreases ifs@.len() - i,
    {
        proof {
            assert(views[i as int] == ifs@[i as int]@);
        }
        if ifs[i].name.eq(name) {
            proof {
                lemma_first_match(views, name@);
            }
            return Some(i);
        }
        i += 1;
    }
    proof {
        lemma_first_match(views, name@);
    }
    None
}

impl Selector {
    /// A fresh selector, bound to nothing.
    pub fn new() -> (s: Selector)
        ensures
            s.last_name is None,
    {
        Selector { last_name: None }
    }

    /// The identity the selector holds, as a mathematical value.
    pub open spec fn bound_to(&self) -> Option<Seq<char>> {
        match self.last_name {
            Some(n) => Some(n@),
            None => None,
        }
    }

    /// Chooses the interface to use this cycle and updates the held
    /// identity.  The chosen interface is moved out of the list and
    /// returned, together with the event the decision amounts to.
    pub fn select(&mut self, ifs: Vec<Interface>) -> (r: Result<
        (Interface, Option<SelectionEvent>),
        OsError,
    >)
        ensures
            ({
                let views = ifs@.map_values(|iface: Interface| iface@);
                match r {
                    Err(e) => e == OsError::NoInterfaceAvailable && views.len() == 0 && final(self).bound_to() == old(self).bound_to(),
                    Ok((chosen, event)) => views.len() > 0 && (match old(self).bound_to() {
                        None => chosen@ == views[0] && event == Some(
                            SelectionEvent::FirstSelection,
                        ) && final(self).bound_to() == Some(views[0].name),
                        Some(prev) => (match first_match(views, prev) {
                            Some(i) => chosen@ == views[i] && event is None && final(self).bound_to() == Some(prev),
                            None => chosen@ == views[0] && event == Some(
                                SelectionEvent::InterfaceSwitch,
                            ) && final(self).bound_to() == Some(views[0].name),
                        }),
                    }),
                }
            }),
    {
        let ghost views = ifs@.map_values(|iface: Interface| iface@);
        if ifs.len() == 0 {
            return Err(OsError::NoInterfaceAvailable);
        }
        let mut rest = ifs;
        proof {
            assert(views[0] == rest@[0]@);
        }
        if self.last_name.is_none() {
            let chosen = rest.remove(0);
            self.last_name = Some(chosen.name.clone());
            return Ok((chosen, Some(SelectionEvent::FirstSelection)));
        }
        let prev = match &self.last_name {
            Some(p) => p.clone(),
            None => unreached(),
        };
        match find_by_name(&rest, &prev) {
            Some(i) => {
                proof {
                    lemma_first_match(views, prev@);
                    assert(views[i as int] == rest@[i as int]@);
                }
                let chosen = rest.remove(i);
                Ok((chosen, None))
            },
            None => {
                let chosen = rest.remove(0);
                self.last_name = Some(chosen.name.clone());
                Ok((chosen, Some(SelectionEvent::InterfaceSwitch)))
            },
        }
    }
}

} // verus!
