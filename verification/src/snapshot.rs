//! Snapshots: a scene as it was at an epoch, in one file.
//!
//! A snapshot's file holds the epoch, as a number of variable length, and then the
//! serialised scene.

use vstd::prelude::*;

use crate::legacy::LegacyScene;
use crate::project::ProjectError;
use crate::scene::Scene;

verus! {

/// A scene and the epoch that it belongs to.
#[derive(Debug)]
pub struct Snapshot {
    pub epoch: u64,
    pub scene: Scene,
}

/// A scene in an earlier format, and the epoch that it belongs to.
#[derive(Debug)]
pub struct LegacySnapshot {
    pub epoch: u64,
    pub scene: LegacyScene,
}

impl LegacySnapshot {
    /// The same snapshot of today: the same epoch, and the scene of today.
    pub fn into_current(self) -> (r: Snapshot)
        ensures
            r.epoch == self.epoch,
            self.scene.becomes(r.scene),
    {
        Snapshot { epoch: self.epoch, scene: self.scene.into_current() }
    }
}

/// Why `postcard` could not read or write a value.
#[verifier::external_type_specification]
#[verifier::external_body]
pub struct ExPostcardError(postcard::Error);

/// The bytes that stand for `n`: seven bits in each, the lowest first, with the
/// highest bit set in every byte but the last.
pub open spec fn varint(n: nat) -> Seq<u8>
    decreases n,
{
    if n < 128 {
        seq![n as u8]
    } else {
        seq![(n % 128 + 128) as u8] + varint(n / 128)
    }
}

/// The number of at most 64 bits that stands in `s` from `at` on, and where it
/// ends: at the first byte whose highest bit is not set, the tenth of `s` at the
/// latest, which adds a single bit.
pub open spec fn varint_at(s: Seq<u8>, at: nat) -> Option<(nat, nat)>
    decreases 10 - at,
{
    if at >= 10 || at >= s.len() {
        None
    } else if s[at as int] < 128 {
        if at == 9 && s[at as int] > 1 {
            None
        } else {
            Some((s[at as int] as nat, at + 1))
        }
    } else {
        match varint_at(s, at + 1) {
            Some((high, end)) => Some(((s[at as int] - 128 + 128 * high) as nat, end)),
            None => None,
        }
    }
}

/// The file of a snapshot at `epoch` whose serialised scene is `body`.
pub open spec fn framed(epoch: u64, body: Seq<u8>) -> Seq<u8> {
    varint(epoch as nat) + body
}

/// The epoch and the serialised scene that a snapshot's file holds.
pub open spec fn unframed(bytes: Seq<u8>) -> Option<(u64, Seq<u8>)> {
    match varint_at(bytes, 0) {
        Some((epoch, end)) => Some((epoch as u64, bytes.skip(end as int))),
        None => None,
    }
}

/// `postcard::to_allocvec` writes a `u64` as a number of variable length, and does
/// not fail on one.
#[verifier::external_body]
fn encode_epoch(epoch: u64) -> (r: Result<Vec<u8>, postcard::Error>)
    ensures
        r is Ok,
        r->Ok_0@ == varint(epoch as nat),
{
    postcard::to_allocvec(&epoch)
}

/// `postcard::take_from_bytes` reads a `u64` from the start of the bytes, as a
/// number of variable length, and gives it with the bytes behind it. It fails
/// where the bytes end too early or the number has more than 64 bits.
#[verifier::external_body]
fn take_epoch(bytes: &[u8]) -> (r: Result<(u64, &[u8]), postcard::Error>)
    ensures
        r is Ok <==> unframed(bytes@) is Some,
        r is Ok ==> (r->Ok_0.0, r->Ok_0.1@) == unframed(bytes@)->0,
{
    postcard::take_from_bytes::<u64>(bytes)
}

/// The numbers that fit in the bytes of a number from the byte `at` on.
spec fn room(at: nat) -> nat
    decreases 10 - at,
{
    if at >= 9 {
        2
    } else {
        128 * room(at + 1)
    }
}

proof fn lemma_varint_at(s: Seq<u8>, at: nat, n: nat, rest: Seq<u8>)
    requires
        at <= 9,
        n < room(at),
        at <= s.len(),
        s.skip(at as int) == varint(n) + rest,
    ensures
        varint_at(s, at) == Some((n, at + varint(n).len())),
    decreases n,
{
    let first = s.skip(at as int)[0];
    assert(s.skip(at as int).len() == varint(n).len() + rest.len());
    assert(first == varint(n)[0]);
    assert(s[at as int] == first);
    if n >= 128 {
        assert(at < 9);
        assert(s.skip(at as int + 1) =~= varint(n / 128) + rest) by {
            assert(s.skip(at as int + 1) =~= s.skip(at as int).skip(1));
        }
        lemma_varint_at(s, at + 1, n / 128, rest);
    }
}

/// Reading a snapshot's file gives back the epoch and the serialised scene that
/// were written.
pub proof fn law_framed_snapshot_reads_back(epoch: u64, body: Seq<u8>)
    ensures
        unframed(framed(epoch, body)) == Some((epoch, body)),
{
    let s = framed(epoch, body);
    let n = epoch as nat;
    assert(room(0) == 0x1_0000_0000_0000_0000) by {
        reveal_with_fuel(room, 11);
    }
    assert(s.skip(0) =~= varint(n) + body);
    lemma_varint_at(s, 0, n, body);
    assert(s.skip(varint(n).len() as int) =~= body);
}

/// The file of a snapshot at `epoch` whose serialised scene is `body`.
pub fn frame_snapshot(epoch: u64, body: Vec<u8>) -> (r: Result<Vec<u8>, ProjectError>)
    ensures
        r is Ok,
        r->Ok_0@ == framed(epoch, body@),
{
    let mut body = body;
    match encode_epoch(epoch) {
        Ok(mut bytes) => {
            bytes.append(&mut body);
            Ok(bytes)
        },
        Err(_) => Err(ProjectError::EncodeSnapshot),
    }
}

/// Whether `r` is what comes of reading the serialised scene `body` in the two
/// earlier formats: first in the one with a line height, and only where that
/// fails in the one without.
pub open spec fn decodes_legacy<L, N>(
    epoch: u64,
    body: &[u8],
    line_height: L,
    no_line_height: N,
    r: Option<Snapshot>,
) -> bool where
    L: FnOnce(&[u8]) -> Option<LegacyScene>,
    N: FnOnce(&[u8]) -> Option<LegacyScene>,
 {
    ||| exists|legacy: LegacyScene| #[trigger]
        call_ensures(line_height, (body,), Some(legacy)) && r is Some && r->0.epoch == epoch
            && legacy.becomes(r->0.scene)
    ||| {
        &&& call_ensures(line_height, (body,), None)
        &&& {
            ||| exists|legacy: LegacyScene| #[trigger]
                call_ensures(no_line_height, (body,), Some(legacy)) && r is Some && r->0.epoch
                    == epoch && legacy.becomes(r->0.scene)
            ||| call_ensures(no_line_height, (body,), None) && r is None
        }
    }
}

/// The snapshot at `epoch` whose scene `body` holds in one of the two earlier
/// formats. `line_height` and `no_line_height` read those formats; the second is
/// asked only where the first fails.
pub fn decode_legacy<L, N>(epoch: u64, body: &[u8], line_height: L, no_line_height: N) -> (r:
    Option<Snapshot>) where
    L: FnOnce(&[u8]) -> Option<LegacyScene>,
    N: FnOnce(&[u8]) -> Option<LegacyScene>,

    requires
        call_requires(line_height, (body,)),
        call_requires(no_line_height, (body,)),
    ensures
        decodes_legacy(epoch, body, line_height, no_line_height, r),
{
    match line_height(body) {
        Some(scene) => {
            return Some(LegacySnapshot { epoch, scene }.into_current());
        },
        None => {},
    }
    match no_line_height(body) {
        Some(scene) => Some(LegacySnapshot { epoch, scene }.into_current()),
        None => None,
    }
}

/// Whether `r` is what comes of reading the serialised scene `body`: first in
/// today's format, and only where that fails in the earlier ones.
pub open spec fn decodes<C, L, N>(
    epoch: u64,
    body: &[u8],
    current: C,
    line_height: L,
    no_line_height: N,
    r: Option<Snapshot>,
) -> bool where
    C: FnOnce(&[u8]) -> Option<Scene>,
    L: FnOnce(&[u8]) -> Option<LegacyScene>,
    N: FnOnce(&[u8]) -> Option<LegacyScene>,
 {
    ||| exists|scene: Scene| #[trigger]
        call_ensures(current, (body,), Some(scene)) && r == Some(Snapshot { epoch, scene })
    ||| {
        &&& call_ensures(current, (body,), None)
        &&& decodes_legacy(epoch, body, line_height, no_line_height, r)
    }
}

/// Whether `r` is what comes of reading a snapshot's file: its epoch, and what the
/// serialised scene behind it is read as.
pub open spec fn reads_as<C, L, N>(
    bytes: Seq<u8>,
    current: C,
    line_height: L,
    no_line_height: N,
    r: Option<Snapshot>,
) -> bool where
    C: FnOnce(&[u8]) -> Option<Scene>,
    L: FnOnce(&[u8]) -> Option<LegacyScene>,
    N: FnOnce(&[u8]) -> Option<LegacyScene>,
 {
    match unframed(bytes) {
        Some((epoch, scene)) => exists|body: &[u8]|
            #![trigger body@]
            body@ == scene && decodes(epoch, body, current, line_height, no_line_height, r),
        None => r is None,
    }
}

/// The snapshot that the file `bytes` holds. `current`, `line_height` and
/// `no_line_height` read a serialised scene in today's format and in the two
/// earlier ones; each is asked only where those before it fail.
pub fn decode_snapshot<C, L, N>(
    bytes: &[u8],
    current: C,
    line_height: L,
    no_line_height: N,
) -> (r: Option<Snapshot>) where
    C: FnOnce(&[u8]) -> Option<Scene>,
    L: FnOnce(&[u8]) -> Option<LegacyScene>,
    N: FnOnce(&[u8]) -> Option<LegacyScene>,

    requires
        forall|body: &[u8]| call_requires(current, (body,)),
        forall|body: &[u8]| call_requires(line_height, (body,)),
        forall|body: &[u8]| call_requires(no_line_height, (body,)),
    ensures
        reads_as(bytes@, current, line_height, no_line_height, r),
{
    match take_epoch(bytes) {
        Ok((epoch, body)) => {
            let r = match current(body) {
                Some(scene) => Some(Snapshot { epoch, scene }),
                None => decode_legacy(epoch, body, line_height, no_line_height),
            };
            assert(decodes(epoch, body, current, line_height, no_line_height, r));
            r
        },
        Err(_) => None,
    }
}

} // verus!
