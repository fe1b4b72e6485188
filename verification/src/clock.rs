//! What the clock and chance give to a version message.

use std::time::{Duration, SystemTime, SystemTimeError};
use vstd::prelude::*;

use crate::outside::{now, random_nonce, since_epoch, whole_seconds};

verus! {

/// Whether `nonce` is a number that the random number generator gave.
pub closed spec fn chance_gave(nonce: u64) -> bool {
    call_ensures(random_nonce, (), nonce)
}

/// Whether `seconds` is what a reading of the clock comes to: the whole seconds
/// since 1970, or the error of a clock that stands before.
pub closed spec fn clock_gave(seconds: Result<u64, SystemTimeError>) -> bool {
    exists|time: SystemTime, elapsed: Result<Duration, SystemTimeError>|
        {
            &&& call_ensures(now, (), time)
            &&& #[trigger] call_ensures(since_epoch, (time,), elapsed)
            &&& match (elapsed, seconds) {
                (Ok(d), Ok(s)) => call_ensures(whole_seconds, (d,), s),
                (Err(e), Err(f)) => e == f,
                _ => false,
            }
        }
}

/// Calls `f`, and keeps that what comes back is what `f` gave.
fn call<F: Fn() -> B, B>(f: F) -> (r: B)
    requires
        call_requires(f, ()),
    ensures
        call_ensures(f, (), r),
{
    f()
}

/// Calls `f` on `a`, and keeps that what comes back is what `f` gave.
fn call_on<A, F: Fn(A) -> B, B>(f: F, a: A) -> (r: B)
    requires
        call_requires(f, (a,)),
    ensures
        call_ensures(f, (a,), r),
{
    f(a)
}

/// A random number.
pub(crate) fn draw_nonce() -> (r: u64)
    ensures
        call_ensures(random_nonce, (), r),
        chance_gave(r),
{
    call(random_nonce)
}

/// The whole seconds since 1970 by the clock, or how far it stands before.
pub(crate) fn read_clock() -> (r: Result<u64, SystemTimeError>)
    ensures
        clock_gave(r),
{
    let time = call(now);
    let elapsed = call_on(since_epoch, time);
    let ghost came = elapsed;
    let r = match elapsed {
        Err(e) => Err(e),
        Ok(elapsed) => Ok(call_on(whole_seconds, elapsed)),
    };
    assert(call_ensures(since_epoch, (time,), came));
    r
}

/// The number of seconds is the one that std counts in the time that std finds
/// between 1970 and a reading of std's clock, and nothing else; an error is the
/// one that std gives for such a reading. The nonce is a number that the random
/// number generator gave.
pub(crate) proof fn law_clock(nonce: u64, seconds: Result<u64, SystemTimeError>)
    ensures
        chance_gave(nonce) ==> call_ensures(random_nonce, (), nonce),
        clock_gave(seconds) && seconds is Ok ==> exists|time: SystemTime, elapsed: Duration|
            {
                &&& call_ensures(now, (), time)
                &&& call_ensures(since_epoch, (time,), Ok::<Duration, SystemTimeError>(elapsed))
                &&& #[trigger] call_ensures(whole_seconds, (elapsed,), seconds->Ok_0)
                &&& #[trigger] call_ensures(now, (), time)
            },
        clock_gave(seconds) && seconds is Err ==> exists|time: SystemTime|
            {
                &&& #[trigger] call_ensures(now, (), time)
                &&& call_ensures(
                    since_epoch,
                    (time,),
                    Err::<Duration, SystemTimeError>(seconds->Err_0),
                )
            },
{
}

} // verus!
