use vstd::prelude::*;

verus! {

/// The stage of an attack-decay-sustain-release envelope. Timed stages carry
/// the time at which they were entered.
#[derive(Clone, Copy, Debug)]
pub enum Adsr<T> {
    Waiting,
    Attack(T),
    Decay(T),
    Sustain,
    Release(T),
    Finished,
}

impl<T> Adsr<T> {
    /// Position of the stage in the envelope's fixed order.
    pub open spec fn rank(self) -> nat {
        match self {
            Adsr::Waiting => 0,
            Adsr::Attack(_) => 1,
            Adsr::Decay(_) => 2,
            Adsr::Sustain => 3,
            Adsr::Release(_) => 4,
            Adsr::Finished => 5,
        }
    }

    /// The stage of rank `k` (`1..=5`) entered at time `time`.
    pub open spec fn entered(k: nat, time: T) -> Adsr<T> {
        if k == 1 {
            Adsr::Attack(time)
        } else if k == 2 {
            Adsr::Decay(time)
        } else if k == 3 {
            Adsr::Sustain
        } else if k == 4 {
            Adsr::Release(time)
        } else {
            Adsr::Finished
        }
    }

    pub fn is_waiting(&self) -> (b: bool)
        ensures
            b <==> *self is Waiting,
    {
        match self {
            Adsr::Waiting => true,
            _ => false,
        }
    }

    pub fn is_finished(&self) -> (b: bool)
        ensures
            b <==> *self is Finished,
    {
        match self {
            Adsr::Finished => true,
            _ => false,
        }
    }
}

impl<T> Default for Adsr<T> {
    fn default() -> (s: Self)
        ensures
            s is Waiting,
    {
        Adsr::Waiting
    }
}

/// Brings the envelope up to date at time `time`.
///
/// `Waiting` is left at once for `Attack`. Each other stage but `Finished` is
/// left when `expired` says it has run its course (for `Attack`, `Decay` and
/// `Release` when its length has elapsed since it was entered, for `Sustain`
/// when the note has ended); the stage it is left for is entered at `time`
/// and asked again. The result is the first stage reached that has not
/// expired, or `Finished`.
pub fn settle<T: Copy, F: Fn(&Adsr<T>) -> bool>(state: Adsr<T>, time: T, expired: F) -> (next: Adsr<T>)
    requires
        forall|s: Adsr<T>| call_requires(expired, (&s,)),
    ensures
        !(next is Waiting),
        next is Finished || call_ensures(expired, (&next,), false),
        next.rank() >= state.rank(),
        !(state is Waiting) && next.rank() == state.rank() ==> next == state,
        !(state is Waiting) && next.rank() > state.rank() ==> call_ensures(
            expired,
            (&state,),
            true,
        ),
        next.rank() > state.rank() ==> next == Adsr::<T>::entered(next.rank(), time),
        forall|k: nat|
            state.rank() < k < next.rank() ==> call_ensures(
                expired,
                (&#[trigger] Adsr::<T>::entered(k, time),),
                true,
            ),
{
    let mut current = state;
    if current.is_waiting() {
        current = Adsr::Attack(time);
    }
    loop
        invariant
            forall|s: Adsr<T>| call_requires(expired, (&s,)),
            !(current is Waiting),
            current.rank() >= state.rank(),
            !(state is Waiting) && current.rank() == state.rank() ==> current == state,
            !(state is Waiting) && current.rank() > state.rank() ==> call_ensures(
                expired,
                (&state,),
                true,
            ),
            current.rank() > state.rank() ==> current == Adsr::<T>::entered(current.rank(), time),
            forall|k: nat|
                state.rank() < k < current.rank() ==> call_ensures(
                    expired,
                    (&#[trigger] Adsr::<T>::entered(k, time),),
                    true,
                ),
        ensures
            !(current is Waiting),
            current is Finished || call_ensures(expired, (&current,), false),
            current.rank() >= state.rank(),
            !(state is Waiting) && current.rank() == state.rank() ==> current == state,
            !(state is Waiting) && current.rank() > state.rank() ==> call_ensures(
                expired,
                (&state,),
                true,
            ),
            current.rank() > state.rank() ==> current == Adsr::<T>::entered(current.rank(), time),
            forall|k: nat|
                state.rank() < k < current.rank() ==> call_ensures(
                    expired,
                    (&#[trigger] Adsr::<T>::entered(k, time),),
                    true,
                ),
        decreases 5 - current.rank(),
    {
        if current.is_finished() {
            break;
        }
        let over = expired(&current);
        if !over {
            break;
        }
        let ghost before = current;
        current = match current {
            Adsr::Attack(_) => Adsr::Decay(time),
            Adsr::Decay(_) => Adsr::Sustain,
            Adsr::Sustain => Adsr::Release(time),
            _ => Adsr::Finished,
        };
        proof {
            assert(current.rank() == before.rank() + 1);
            assert(before.rank() > state.rank() ==> before == Adsr::<T>::entered(before.rank(), time));
        }
    }
    current
}

} // verus!
