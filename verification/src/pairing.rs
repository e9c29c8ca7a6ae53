//! Pairing: the window with its six-digit code, the password exchange, and the devices
//! that were paired.

use vstd::prelude::*;
use vstd::slice::slice_subrange;

use crate::clock;
use crate::ordmap;
use crate::ordmap::OrdMap;
use crate::rtp;
use crate::secret;
use crate::secret::{
    SIDE_A, SIDE_B, exchange_answer, exchange_finish, hex_of, random_bytes, sha256,
};
use crate::text;
use crate::text::{push_decimal, same_text, text_of, trimmed_chars};

verus! {

/// Seconds for which a pairing code is good.
pub const PAIRING_CODE_TTL_SECS: u64 = 120;

/// Most characters of a stored device name.
pub const MAX_STORED_NAME_LEN: usize = 64;

/// UTF-8 bytes of a text.
pub open spec fn utf8(s: Seq<char>) -> Seq<u8> {
    vstd::utf8::encode_utf8(s)
}

/// Identity of the phone in the exchange.
pub open spec fn phone_identity() -> Seq<u8> {
    utf8("wdl-phone"@)
}

/// Identity of the receiver in the exchange.
pub open spec fn receiver_identity() -> Seq<u8> {
    utf8("wdl-receiver"@)
}

/// What the receiver hashes with the key to show that it has it.
pub open spec fn receiver_confirmation(key: Seq<u8>) -> Seq<u8> {
    secret::sha256_of(key + utf8("wdl-confirm-receiver"@))
}

/// What the phone hashes with the key to show that it has it.
pub open spec fn phone_confirmation(key: Seq<u8>) -> Seq<u8> {
    secret::sha256_of(key + utf8("wdl-confirm-phone"@))
}

/// A phone that was paired.
#[derive(Debug, PartialEq)]
pub struct PairedDevice {
    pub device_id: String,
    pub name: String,
    pub token: String,
    pub added_unix_secs: u64,
}

impl Clone for PairedDevice {
    fn clone(&self) -> (r: Self)
        ensures
            r == *self,
    {
        PairedDevice {
            device_id: self.device_id.clone(),
            name: self.name.clone(),
            token: self.token.clone(),
            added_unix_secs: self.added_unix_secs,
        }
    }
}

/// The view of a `PairedDevice`.
#[verifier::ext_equal]
pub struct DeviceModel {
    pub device_id: Seq<char>,
    pub name: Seq<char>,
    pub token: Seq<char>,
    pub added_unix_secs: u64,
}

impl View for PairedDevice {
    type V = DeviceModel;

    open spec fn view(&self) -> DeviceModel {
        DeviceModel {
            device_id: self.device_id@,
            name: self.name@,
            token: self.token@,
            added_unix_secs: self.added_unix_secs,
        }
    }
}

/// Why a step of pairing was refused.
#[derive(Debug, Clone, Copy, PartialEq, Eq, Structural)]
pub enum PairingError {
    NoWindow,
    Expired,
    OutOfOrder,
    BadCode,
    NoEntropy,
}

impl PairingError {
    /// The message of the error.
    pub open spec fn text(self) -> Seq<char> {
        match self {
            PairingError::NoWindow => "no pairing window is open"@,
            PairingError::Expired => "pairing window has expired"@,
            PairingError::OutOfOrder => "pairing handshake out of order"@,
            PairingError::BadCode => "pairing code rejected"@,
            PairingError::NoEntropy => "system entropy unavailable"@,
        }
    }

    /// The message of the error.
    pub fn to_string(&self) -> (r: String)
        ensures
            r@ == self.text(),
    {
        let s: &str = match self {
            PairingError::NoWindow => "no pairing window is open",
            PairingError::Expired => "pairing window has expired",
            PairingError::OutOfOrder => "pairing handshake out of order",
            PairingError::BadCode => "pairing code rejected",
            PairingError::NoEntropy => "system entropy unavailable",
        };
        s.to_owned()
    }
}

/// How far the exchange in a window has come.
enum PairingStage {
    Waiting,
    KeyDerived { key: Vec<u8>, device_name: String },
}

/// The view of a stage.
#[verifier::ext_equal]
pub enum StageModel {
    Waiting,
    KeyDerived { key: Seq<u8>, device_name: Seq<char> },
}

impl View for PairingStage {
    type V = StageModel;

    closed spec fn view(&self) -> StageModel {
        match *self {
            PairingStage::Waiting => StageModel::Waiting,
            PairingStage::KeyDerived { key, device_name } => StageModel::KeyDerived {
                key: key@,
                device_name: device_name@,
            },
        }
    }
}

struct ActivePairing {
    code: String,
    opened_at: std::time::Instant,
    stage: PairingStage,
}

/// The view of an open window: its code, the moment at which it opened, and how far the
/// exchange has come.
#[verifier::ext_equal]
pub struct WindowModel {
    pub code: Seq<char>,
    pub opened: std::time::Instant,
    pub stage: StageModel,
}

impl View for ActivePairing {
    type V = WindowModel;

    closed spec fn view(&self) -> WindowModel {
        WindowModel { code: self.code@, opened: self.opened_at, stage: self.stage@ }
    }
}

/// The view of a `PairingManager`: the window, if one was opened, and the devices in the
/// order of their identifiers.
#[verifier::ext_equal]
pub struct PairingModel {
    pub window: Option<WindowModel>,
    pub devices: Seq<DeviceModel>,
}

impl PairingModel {
    /// Seconds from the opening of the window to a moment, 0 where none was opened.
    pub open spec fn age_at(self, now: std::time::Instant) -> int {
        match self.window {
            Some(w) => clock::seconds_between(w.opened, now) as int,
            None => 0,
        }
    }

    /// Whether a window is open at a moment: it was opened, has not been closed, and its code
    /// is still good.
    pub open spec fn open_at(self, now: std::time::Instant) -> bool {
        self.window is Some && self.age_at(now) < PAIRING_CODE_TTL_SECS
    }

    /// The state with a window that was opened with a code at a moment.
    pub open spec fn opened(self, code: Seq<char>, now: std::time::Instant) -> PairingModel {
        PairingModel {
            window: Some(WindowModel { code, opened: now, stage: StageModel::Waiting }),
            devices: self.devices,
        }
    }
}

/// The identifiers of some devices.
pub open spec fn ids(devices: Seq<DeviceModel>) -> Seq<Seq<char>> {
    Seq::new(devices.len(), |i: int| devices[i].device_id)
}

/// The devices by identifier.
pub open spec fn by_id(devices: Seq<DeviceModel>) -> Map<Seq<char>, DeviceModel> {
    Map::new(
        |k: Seq<char>| ids(devices).contains(k),
        |k: Seq<char>| devices[ids(devices).index_of(k)],
    )
}

/// The views of a list of devices.
pub open spec fn device_views(list: Seq<PairedDevice>) -> Seq<DeviceModel> {
    Seq::new(list.len(), |i: int| list[i]@)
}

/// The devices of a list by identifier; of two that share one, the later counts.
pub open spec fn last_by_id(list: Seq<DeviceModel>) -> Map<Seq<char>, DeviceModel>
    decreases list.len(),
{
    if list.len() == 0 {
        Map::empty()
    } else {
        last_by_id(list.drop_last()).insert(list.last().device_id, list.last())
    }
}

/// The answer to the message with which a phone begins.
pub struct BeginOutcome {
    pub spake_reply: Vec<u8>,
    pub receiver_fingerprint: String,
    pub receiver_confirmation: [u8; 32],
}

/// Owns the pairing window (six-digit code), the state of the exchange and the paired
/// devices.
pub struct PairingManager {
    active: Option<ActivePairing>,
    devices: OrdMap<PairedDevice>,
}

impl View for PairingManager {
    type V = PairingModel;

    closed spec fn view(&self) -> PairingModel {
        PairingModel {
            window: match self.active {
                None => None,
                Some(a) => Some(a@),
            },
            devices: device_views(self.devices.values()),
        }
    }
}

/// What the receiver makes of the first message of a phone that calls itself
/// `device_name`, `age` seconds after the window opened: what comes back and what the
/// pairing state is then. The answer holds a message of the exchange that is up to
/// chance; the key follows from it.
pub open spec fn begin_step(
    old: PairingModel,
    age: int,
    device_name: Seq<char>,
    phone_message: Seq<u8>,
    fingerprint: Seq<char>,
    r: Result<BeginOutcome, PairingError>,
    new: PairingModel,
) -> bool {
    match old.window {
        None => r == Err::<BeginOutcome, PairingError>(PairingError::NoWindow) && new == old,
        Some(w) => if age >= PAIRING_CODE_TTL_SECS {
            &&& r == Err::<BeginOutcome, PairingError>(PairingError::Expired)
            &&& new == (PairingModel { window: None, ..old })
        } else if w.stage !is Waiting {
            r == Err::<BeginOutcome, PairingError>(PairingError::OutOfOrder) && new == old
        } else if !secret::exchange_message(phone_message, SIDE_A) {
            r == Err::<BeginOutcome, PairingError>(PairingError::BadCode) && new == old
        } else {
            &&& r matches Ok(o)
            &&& secret::exchange_message(o.spake_reply@, SIDE_B)
            &&& ({
                let key = secret::spake2_key(
                    utf8(w.code),
                    phone_identity(),
                    receiver_identity(),
                    phone_message,
                    o.spake_reply@,
                );
                &&& o.receiver_fingerprint@ == fingerprint
                &&& o.receiver_confirmation@ == receiver_confirmation(key)
                &&& new == (PairingModel {
                    window: Some(
                        WindowModel {
                            code: w.code,
                            opened: w.opened,
                            stage: StageModel::KeyDerived { key, device_name },
                        },
                    ),
                    ..old
                })
            })
        },
    }
}

/// The identifier of a device: half the hash of its name and the key, in hexadecimal.
pub open spec fn device_id_text(name: Seq<char>, key: Seq<u8>) -> Seq<char> {
    secret::hex_text(secret::sha256_of(utf8(name) + key).take(16))
}

/// The name under which a device is stored.
pub open spec fn stored_name(name: Seq<char>) -> Seq<char> {
    let cut = if text::trimmed(name).len() > MAX_STORED_NAME_LEN {
        text::trimmed(name).take(MAX_STORED_NAME_LEN as int)
    } else {
        text::trimmed(name)
    };
    if cut.len() == 0 {
        "Unknown phone"@
    } else {
        cut
    }
}

/// What the receiver makes of the confirmation of a phone, `age` seconds after the window
/// opened, with the random bytes `entropy` for a token and `now` for the time.
pub open spec fn verify_step(
    old: PairingModel,
    age: int,
    confirmation: Seq<u8>,
    entropy: Option<Seq<u8>>,
    now: u64,
    r: Result<PairedDevice, PairingError>,
    new: PairingModel,
) -> bool {
    match old.window {
        None => r == Err::<PairedDevice, PairingError>(PairingError::NoWindow) && new == old,
        Some(w) => match w.stage {
            StageModel::Waiting => r == Err::<PairedDevice, PairingError>(PairingError::OutOfOrder)
                && new == old,
            StageModel::KeyDerived { key, device_name } => if age >= PAIRING_CODE_TTL_SECS {
                &&& r == Err::<PairedDevice, PairingError>(PairingError::Expired)
                &&& new == (PairingModel { window: None, ..old })
            } else if phone_confirmation(key) != confirmation {
                &&& r == Err::<PairedDevice, PairingError>(PairingError::BadCode)
                &&& new == (PairingModel { window: None, ..old })
            } else {
                match entropy {
                    None => r == Err::<PairedDevice, PairingError>(PairingError::NoEntropy) && new
                        == old,
                    Some(bytes) => {
                        &&& r matches Ok(d)
                        &&& d@ == (DeviceModel {
                            device_id: device_id_text(device_name, key),
                            name: stored_name(device_name),
                            token: secret::hex_text(bytes),
                            added_unix_secs: now,
                        })
                        &&& new.window is None
                        &&& ordmap::rising(ids(new.devices))
                        &&& by_id(new.devices) == by_id(old.devices).insert(d@.device_id, d@)
                    },
                }
            },
        },
    }
}

/// The first device that has a token, if one has it.
pub open spec fn first_with_token(devices: Seq<DeviceModel>, token: Seq<char>) -> Option<
    DeviceModel,
>
    decreases devices.len(),
{
    if devices.len() == 0 {
        None
    } else if devices[0].token == token {
        Some(devices[0])
    } else {
        first_with_token(devices.drop_first(), token)
    }
}

/// The view of optional bytes.
pub open spec fn maybe_bytes(b: Option<Vec<u8>>) -> Option<Seq<u8>> {
    match b {
        None => None,
        Some(v) => Some(v@),
    }
}

pub(crate) fn confirmation_hash(key: &[u8], suffix: &str) -> (r: [u8; 32])
    ensures
        r@ == secret::sha256_of(key@ + utf8(suffix@)),
{
    let mut buf: Vec<u8> = vstd::slice::slice_to_vec(key);
    buf.extend_from_slice(suffix.as_bytes());
    proof {
        assert(buf@ =~= key@ + utf8(suffix@));
    }
    sha256(buf.as_slice())
}

fn derive_device_id(name: &str, key: &[u8]) -> (r: String)
    ensures
        r@ == device_id_text(name@, key@),
{
    let mut buf: Vec<u8> = vstd::slice::slice_to_vec(name.as_bytes());
    buf.extend_from_slice(key);
    proof {
        assert(buf@ =~= utf8(name@) + key@);
    }
    let hash = sha256(buf.as_slice());
    let half = slice_subrange(hash.as_slice(), 0, 16);
    proof {
        assert(half@ =~= secret::sha256_of(utf8(name@) + key@).take(16));
    }
    hex_of(half)
}

/// The name under which a device is stored: trimmed, cut to 64 characters, and never
/// empty.
pub fn sanitize_name(name: &str) -> (r: String)
    ensures
        r@ == stored_name(name@),
{
    let chars = trimmed_chars(name);
    let n: usize = if chars.len() > MAX_STORED_NAME_LEN {
        MAX_STORED_NAME_LEN
    } else {
        chars.len()
    };
    if n == 0 {
        return "Unknown phone".to_owned();
    }
    let cut = slice_subrange(chars.as_slice(), 0, n);
    proof {
        assert(cut@ =~= (if text::trimmed(name@).len() > MAX_STORED_NAME_LEN {
            text::trimmed(name@).take(MAX_STORED_NAME_LEN as int)
        } else {
            text::trimmed(name@)
        }));
    }
    text_of(cut)
}

/// Whether two confirmations are equal.
pub(crate) fn same_block(a: &[u8; 32], b: &[u8; 32]) -> (r: bool)
    ensures
        r == (a@ == b@),
{
    let mut i: usize = 0;
    while i < 32
        invariant
            i <= 32,
            forall|k: int| 0 <= k < i ==> a@[k] == b@[k],
        decreases 32 - i,
    {
        if a[i] != b[i] {
            return false;
        }
        i = i + 1;
    }
    assert(a@ =~= b@);
    true
}

/// A pairing code: six decimal digits, the first not 0.
pub open spec fn is_pairing_code(s: Seq<char>) -> bool {
    exists|n: int| 100_000 <= n <= 999_999 && s == #[trigger] text::decimal(n as nat)
}

/// Random numbers from here on are not used for a code: below it there are as many for
/// each code.
pub open spec fn code_limit() -> int {
    u32::MAX as int - u32::MAX as int % 900_000
}

/// The pairing code for a random number, or nothing for a number that is not used.
pub fn pairing_code_from(value: u32) -> (r: Option<String>)
    ensures
        match r {
            Some(code) => value < code_limit() && code@ == text::decimal(
                (100_000 + value % 900_000) as nat,
            ),
            None => value >= code_limit(),
        },
{
    if value >= 4_294_800_000 {
        return None;
    }
    let mut out = String::new();
    push_decimal(&mut out, (100_000 + value % 900_000) as u64);
    proof {
        assert(out@ =~= text::decimal((100_000 + value % 900_000) as nat));
    }
    Some(out)
}

/// The pairing code for four random bytes, read as a number with the most significant byte
/// first, or nothing for a number that is not used.
pub fn pairing_code_from_bytes(b: &[u8]) -> (r: Option<String>)
    requires
        b@.len() == 4,
    ensures
        match r {
            Some(code) => rtp::be32_at(b@, 0) < code_limit() && code@ == text::decimal(
                (100_000 + rtp::be32_at(b@, 0) % 900_000) as nat,
            ),
            None => rtp::be32_at(b@, 0) >= code_limit(),
        },
{
    let value: u32 = b[0] as u32 * 16_777_216 + b[1] as u32 * 65_536 + b[2] as u32 * 256
        + b[3] as u32;
    pairing_code_from(value)
}

/// A fresh pairing code, each of the 900000 as likely as any other. Nothing comes back
/// where the system has no random bytes to give.
pub fn generate_pairing_code() -> (r: Option<String>)
    ensures
        r matches Some(code) ==> is_pairing_code(code@),
{
    let mut left: u64 = u64::MAX;
    while left > 0
        invariant
            true,
        decreases left,
    {
        match random_bytes(4) {
            None => {
                return None;
            },
            Some(b) => {
                match pairing_code_from_bytes(b.as_slice()) {
                    Some(code) => {
                        proof {
                            let n = 100_000 + rtp::be32_at(b@, 0) % 900_000;
                            assert(code@ == text::decimal(n as nat));
                        }
                        return Some(code);
                    },
                    None => {},
                }
            },
        }
        left = left - 1;
    }
    None
}

proof fn lemma_by_id(m: OrdMap<PairedDevice>)
    requires
        m.wf(),
        keyed(m),
    ensures
        ids(device_views(m.values())) == m.keys(),
        forall|k: Seq<char>|
            #![trigger by_id(device_views(m.values())).dom().contains(k)]
            by_id(device_views(m.values())).dom().contains(k) <==> m.map().dom().contains(k),
        forall|k: Seq<char>| #[trigger]
            m.map().dom().contains(k) ==> by_id(device_views(m.values()))[k] == m.map()[k]@,
{
    let views = device_views(m.values());
    assert(ids(views) =~= m.keys());
    assert forall|k: Seq<char>| #[trigger] m.map().dom().contains(k) implies by_id(views)[k]
        == m.map()[k]@ by {
        let i = m.keys().index_of(k);
        assert(m.keys().contains(k));
        assert(0 <= i < m.keys().len());
    }
}

/// Whether each device stands under its identifier.
spec fn keyed(m: OrdMap<PairedDevice>) -> bool {
    forall|i: int|
        0 <= i < m.keys().len() ==> #[trigger] m.keys()[i] == m.values()[i].device_id@
}

fn put_device(m: &mut OrdMap<PairedDevice>, d: PairedDevice)
    requires
        old(m).wf(),
        keyed(*old(m)),
    ensures
        final(m).wf(),
        keyed(*final(m)),
        by_id(device_views(final(m).values())) == by_id(device_views(old(m).values())).insert(
            d@.device_id,
            d@,
        ),
{
    let ghost before = *m;
    m.insert(d.device_id.clone(), d);
    proof {
        assert forall|i: int| 0 <= i < m.keys().len() implies #[trigger] m.keys()[i]
            == m.values()[i].device_id@ by {
            let k = m.keys()[i];
            m.lemma_at(i);
            if k != d.device_id@ {
                assert(before.map().dom().contains(k));
                let j = before.keys().index_of(k);
                assert(before.keys().contains(k));
                before.lemma_at(j);
            }
        }
        lemma_by_id(before);
        lemma_by_id(*m);
        let a = by_id(device_views(m.values()));
        let b = by_id(device_views(before.values())).insert(d@.device_id, d@);
        assert forall|k: Seq<char>| a.dom().contains(k) <==> b.dom().contains(k) by {
            assert(m.map().dom().contains(k) <==> before.map().insert(d.device_id@, d).dom().contains(
                k,
            ));
        }
        assert forall|k: Seq<char>| a.dom().contains(k) implies a[k] == b[k] by {
            assert(m.map().dom().contains(k));
            if k != d.device_id@ {
                assert(before.map().dom().contains(k));
            }
        }
        assert(a =~= b);
    }
}

impl PairingManager {
    /// The devices are in the order of their identifiers, each under its own.
    pub closed spec fn wf(self) -> bool {
        self.devices.wf() && keyed(self.devices)
    }

    /// The identifiers of the devices rise, so no two are the same.
    pub proof fn law_devices_are_in_order(self)
        requires
            self.wf(),
        ensures
            ordmap::rising(ids(self@.devices)),
    {
        lemma_by_id(self.devices);
    }

    /// A manager without an open window that knows the devices of a list; of two that
    /// share an identifier, the later counts.
    pub fn new(devices: Vec<PairedDevice>) -> (r: PairingManager)
        ensures
            r.wf(),
            r@.window is None,
            ordmap::rising(ids(r@.devices)),
            by_id(r@.devices) == last_by_id(device_views(devices@)),
    {
        let mut map: OrdMap<PairedDevice> = OrdMap::new();
        let ghost list = device_views(devices@);
        let mut i: usize = 0;
        proof {
            assert(list.take(0) =~= Seq::<DeviceModel>::empty());
            lemma_by_id(map);
            assert(by_id(device_views(map.values())) =~= Map::<Seq<char>, DeviceModel>::empty());
        }
        while i < devices.len()
            invariant
                i <= devices@.len(),
                list == device_views(devices@),
                map.wf(),
                keyed(map),
                by_id(device_views(map.values())) == last_by_id(list.take(i as int)),
            decreases devices.len() - i,
        {
            put_device(&mut map, devices[i].clone());
            proof {
                let next = list.take(i + 1);
                assert(next.drop_last() =~= list.take(i as int));
                assert(next.last() == devices@[i as int]@);
            }
            i = i + 1;
        }
        proof {
            assert(list.take(i as int) =~= list);
            lemma_by_id(map);
        }
        PairingManager { active: None, devices: map }
    }

    /// Opens a window with a code at a moment, in place of one that was open.
    pub fn open_window_at(&mut self, code: String, now: std::time::Instant)
        requires
            old(self).wf(),
        ensures
            final(self).wf(),
            final(self)@ == old(self)@.opened(code@, now),
    {
        self.active = Some(ActivePairing { code, opened_at: now, stage: PairingStage::Waiting });
    }

    /// Opens a window with a code now, in place of one that was open.
    pub fn open_window_with(&mut self, code: String)
        requires
            old(self).wf(),
        ensures
            final(self).wf(),
            exists|now: std::time::Instant| final(self)@ == #[trigger] old(self)@.opened(
                code@,
                now,
            ),
    {
        let now = std::time::Instant::now();
        self.open_window_at(code, now);
    }

    /// Opens a fresh window and returns the six-digit code to display. Nothing comes back,
    /// and nothing changes, where the system has no random bytes to give.
    pub fn open_window(&mut self) -> (r: Option<String>)
        requires
            old(self).wf(),
        ensures
            final(self).wf(),
            match r {
                Some(code) => {
                    &&& is_pairing_code(code@)
                    &&& exists|now: std::time::Instant| final(self)@ == #[trigger] old(
                        self,
                    )@.opened(code@, now)
                },
                None => final(self)@ == old(self)@,
            },
    {
        match generate_pairing_code() {
            Some(code) => {
                self.open_window_with(code.clone());
                Some(code)
            },
            None => None,
        }
    }

    /// Closes the window, if one is open.
    pub fn close_window(&mut self)
        requires
            old(self).wf(),
        ensures
            final(self).wf(),
            final(self)@ == (PairingModel { window: None, devices: old(self)@.devices }),
    {
        self.active = None;
    }

    /// Seconds from the opening of the window to a moment, 0 where none is open.
    pub fn window_age_at(&self, now: &std::time::Instant) -> (r: u64)
        ensures
            r == self@.age_at(*now),
    {
        match &self.active {
            Some(a) => clock::seconds_from(&a.opened_at, now),
            None => 0,
        }
    }

    /// Seconds since the window opened, 0 where none is open.
    pub(crate) fn window_age(&self) -> (r: u64)
        ensures
            exists|now: std::time::Instant| r == #[trigger] self@.age_at(now),
    {
        let now = std::time::Instant::now();
        self.window_age_at(&now)
    }

    /// Whether a window is open `age` seconds after it was opened.
    pub fn window_is_open_at(&self, age: u64) -> (r: bool)
        requires
            self.wf(),
        ensures
            r == (self@.window is Some && age < PAIRING_CODE_TTL_SECS),
    {
        match &self.active {
            Some(_) => age < PAIRING_CODE_TTL_SECS,
            None => false,
        }
    }

    /// Whether a window is open now.
    pub fn window_is_open(&self) -> (r: bool)
        requires
            self.wf(),
        ensures
            exists|now: std::time::Instant| r == #[trigger] self@.open_at(now),
    {
        let now = std::time::Instant::now();
        let r = self.window_is_open_at(self.window_age_at(&now));
        assert(r == self@.open_at(now));
        r
    }

    /// Handles the message with which a phone begins, `age` seconds after the window
    /// opened.
    pub fn begin_at(
        &mut self,
        age: u64,
        device_name: &str,
        phone_message: &[u8],
        receiver_fingerprint: String,
    ) -> (r: Result<BeginOutcome, PairingError>)
        requires
            old(self).wf(),
        ensures
            final(self).wf(),
            begin_step(
                old(self)@,
                age as int,
                device_name@,
                phone_message@,
                receiver_fingerprint@,
                r,
                final(self)@,
            ),
    {
        let active = match self.active.take() {
            None => {
                return Err(PairingError::NoWindow);
            },
            Some(a) => a,
        };
        if age >= PAIRING_CODE_TTL_SECS {
            return Err(PairingError::Expired);
        }
        let waiting: bool = match &active.stage {
            PairingStage::Waiting => true,
            PairingStage::KeyDerived { key: _, device_name: _ } => false,
        };
        if !waiting {
            self.active = Some(active);
            return Err(PairingError::OutOfOrder);
        }
        let (exchange, reply) = exchange_answer(
            active.code.as_str().as_bytes(),
            "wdl-phone".as_bytes(),
            "wdl-receiver".as_bytes(),
        );
        let ghost holds = secret::exchange_holds(exchange);
        proof {
            assert(holds[0][0] == SIDE_B);
            assert(seq![SIDE_A][0] == SIDE_A);
            assert(!secret::begins(holds));
        }
        // The receiver already has the phone's message, so it can finish its half of the
        // exchange at once.
        match exchange_finish(exchange, phone_message) {
            None => {
                self.active = Some(active);
                Err(PairingError::BadCode)
            },
            Some(key) => {
                let confirmation = confirmation_hash(key.as_slice(), "wdl-confirm-receiver");
                self.active =
                Some(
                    ActivePairing {
                        code: active.code,
                        opened_at: active.opened_at,
                        stage: PairingStage::KeyDerived {
                            key,
                            device_name: device_name.to_owned(),
                        },
                    },
                );
                Ok(
                    BeginOutcome {
                        spake_reply: reply,
                        receiver_fingerprint,
                        receiver_confirmation: confirmation,
                    },
                )
            },
        }
    }

    /// Handles the message with which a phone begins.
    pub fn handle_pair_begin(
        &mut self,
        device_name: &str,
        phone_message: &[u8],
        receiver_fingerprint: String,
    ) -> (r: Result<BeginOutcome, PairingError>)
        requires
            old(self).wf(),
        ensures
            final(self).wf(),
            exists|now: std::time::Instant|
                begin_step(
                    old(self)@,
                    #[trigger] old(self)@.age_at(now),
                    device_name@,
                    phone_message@,
                    receiver_fingerprint@,
                    r,
                    final(self)@,
                ),
    {
        let age = self.window_age();
        self.begin_at(age, device_name, phone_message, receiver_fingerprint)
    }

    /// Handles the confirmation of a phone, `age` seconds after the window opened, with
    /// random bytes for the token and the time to note.
    pub fn verify_at(
        &mut self,
        age: u64,
        confirmation: &[u8; 32],
        entropy: Option<Vec<u8>>,
        now: u64,
    ) -> (r: Result<PairedDevice, PairingError>)
        requires
            old(self).wf(),
        ensures
            final(self).wf(),
            verify_step(
                old(self)@,
                age as int,
                confirmation@,
                maybe_bytes(entropy),
                now,
                r,
                final(self)@,
            ),
    {
        let ghost before = *self;
        let active = match self.active.take() {
            None => {
                return Err(PairingError::NoWindow);
            },
            Some(a) => a,
        };
        let (key, device_name) = match &active.stage {
            PairingStage::Waiting => {
                self.active = Some(active);
                return Err(PairingError::OutOfOrder);
            },
            PairingStage::KeyDerived { key, device_name } => (key, device_name),
        };
        if age >= PAIRING_CODE_TTL_SECS {
            return Err(PairingError::Expired);
        }
        let expected = confirmation_hash(key.as_slice(), "wdl-confirm-phone");
        if !same_block(&expected, confirmation) {
            return Err(PairingError::BadCode);
        }
        let bytes = match entropy {
            None => {
                self.active = Some(active);
                return Err(PairingError::NoEntropy);
            },
            Some(b) => b,
        };
        let device = PairedDevice {
            device_id: derive_device_id(device_name.as_str(), key.as_slice()),
            name: sanitize_name(device_name.as_str()),
            token: hex_of(bytes.as_slice()),
            added_unix_secs: now,
        };
        put_device(&mut self.devices, device.clone());
        proof {
            lemma_by_id(self.devices);
        }
        Ok(device)
    }

    /// Handles the confirmation of a phone and, if it is right, keeps the phone as a
    /// paired device and closes the window.
    pub fn handle_pair_verify(&mut self, confirmation: &[u8; 32]) -> (r: Result<
        PairedDevice,
        PairingError,
    >)
        requires
            old(self).wf(),
        ensures
            final(self).wf(),
            exists|now: std::time::Instant, entropy: Option<Seq<u8>>, secs: u64|
                (entropy matches Some(b) ==> b.len() == 32) && #[trigger] verify_step(
                    old(self)@,
                    old(self)@.age_at(now),
                    confirmation@,
                    entropy,
                    secs,
                    r,
                    final(self)@,
                ),
    {
        let age = self.window_age();
        let entropy = random_bytes(32);
        self.verify_at(age, confirmation, entropy, clock::unix_now())
    }

    /// The first device, in the order of identifiers, that has a token.
    pub fn find_by_token(&self, token: &str) -> (r: Option<PairedDevice>)
        requires
            self.wf(),
        ensures
            match first_with_token(self@.devices, token@) {
                None => r is None,
                Some(d) => r matches Some(x) && x@ == d,
            },
    {
        let mut i: usize = 0;
        let ghost all = self@.devices;
        proof {
            assert(all.skip(0) =~= all);
        }
        while i < self.devices.len()
            invariant
                self.wf(),
                all == self@.devices,
                i <= self.devices.keys().len(),
                self.devices.keys().len() == all.len(),
                first_with_token(all.skip(i as int), token@) == first_with_token(all, token@),
            decreases self.devices.keys().len() - i,
        {
            let d = self.devices.value_at(i);
            proof {
                assert(all.skip(i as int)[0] == d@);
                assert(all.skip(i as int).drop_first() =~= all.skip(i + 1));
            }
            if same_text(d.token.as_str(), token) {
                return Some(d.clone());
            }
            i = i + 1;
        }
        None
    }

    /// All devices, in the order of their identifiers.
    pub fn list_devices(&self) -> (r: Vec<PairedDevice>)
        requires
            self.wf(),
        ensures
            device_views(r@) == self@.devices,
    {
        let mut out: Vec<PairedDevice> = Vec::new();
        let mut i: usize = 0;
        while i < self.devices.len()
            invariant
                self.wf(),
                i <= self.devices.keys().len(),
                self.devices.keys().len() == self@.devices.len(),
                device_views(out@) == self@.devices.take(i as int),
                out@.len() == i,
            decreases self.devices.keys().len() - i,
        {
            out.push(self.devices.value_at(i).clone());
            i = i + 1;
            proof {
                assert(device_views(out@) =~= self@.devices.take(i as int));
            }
        }
        proof {
            assert(self@.devices.take(i as int) =~= self@.devices);
        }
        out
    }
}

proof fn lemma_first_with_token(devices: Seq<DeviceModel>, token: Seq<char>)
    ensures
        match first_with_token(devices, token) {
            Some(d) => d.token == token && devices.contains(d),
            None => forall|i: int| 0 <= i < devices.len() ==> (#[trigger] devices[i]).token != token,
        },
    decreases devices.len(),
{
    if devices.len() > 0 && devices[0].token != token {
        let rest = devices.drop_first();
        lemma_first_with_token(rest, token);
        match first_with_token(rest, token) {
            Some(d) => {
                let j = rest.index_of(d);
                assert(devices[j + 1] == d);
            },
            None => {
                assert forall|i: int| 0 <= i < devices.len() implies (
                #[trigger] devices[i]).token != token by {
                    if i > 0 {
                        assert(devices[i] == rest[i - 1]);
                    }
                }
            },
        }
    } else if devices.len() > 0 {
        assert(devices.contains(devices[0]));
    }
}

/// A phone that was just paired is known by its token: a lookup finds a device with that
/// token, and it is this phone unless another had the token before.
pub proof fn law_a_new_token_is_known(
    old: PairingModel,
    age: int,
    confirmation: Seq<u8>,
    entropy: Option<Seq<u8>>,
    now: u64,
    d: PairedDevice,
    new: PairingModel,
)
    requires
        verify_step(old, age, confirmation, entropy, now, Ok(d), new),
    ensures
        first_with_token(new.devices, d@.token) matches Some(x) && x.token == d@.token,
        (forall|i: int| 0 <= i < old.devices.len() ==> (#[trigger] old.devices[i]).token
            != d@.token) ==> first_with_token(new.devices, d@.token) == Some(d@),
{
    let k = d@.device_id;
    assert(by_id(new.devices).dom().contains(k));
    let i = ids(new.devices).index_of(k);
    assert(ids(new.devices).contains(k));
    assert(new.devices[i] == by_id(new.devices)[k]);
    assert(new.devices[i] == d@);
    lemma_first_with_token(new.devices, d@.token);
    let x = first_with_token(new.devices, d@.token)->0;
    if forall|i: int| 0 <= i < old.devices.len() ==> (#[trigger] old.devices[i]).token != d@.token {
        let j = new.devices.index_of(x);
        assert(new.devices[j] == x);
        assert(ids(new.devices)[j] == x.device_id);
        assert(ids(new.devices).contains(x.device_id));
        let j2 = ids(new.devices).index_of(x.device_id);
        assert(j2 == j) by {
            text::lemma_less_irreflexive(x.device_id);
            if j2 < j {
                assert(text::text_less(ids(new.devices)[j2], ids(new.devices)[j]));
            } else if j < j2 {
                assert(text::text_less(ids(new.devices)[j], ids(new.devices)[j2]));
            }
        }
        assert(by_id(new.devices)[x.device_id] == x);
        if x.device_id != k {
            assert(by_id(new.devices).dom().contains(x.device_id));
            assert(by_id(old.devices).dom().contains(x.device_id));
            let o = ids(old.devices).index_of(x.device_id);
            assert(ids(old.devices).contains(x.device_id));
            assert(old.devices[o] == x);
        }
    }
}

proof fn lemma_id_place(devices: Seq<DeviceModel>, i: int)
    requires
        ordmap::rising(ids(devices)),
        0 <= i < devices.len(),
    ensures
        by_id(devices).dom().contains(devices[i].device_id),
        by_id(devices)[devices[i].device_id] == devices[i],
{
    let k = devices[i].device_id;
    assert(ids(devices)[i] == k);
    assert(ids(devices).contains(k));
    let j = ids(devices).index_of(k);
    text::lemma_less_irreflexive(k);
    if j < i {
        assert(text::text_less(ids(devices)[j], ids(devices)[i]));
    } else if i < j {
        assert(text::text_less(ids(devices)[i], ids(devices)[j]));
    }
}

/// Without its last device a list in order knows all but that device.
proof fn lemma_by_id_drop_last(devices: Seq<DeviceModel>)
    requires
        devices.len() > 0,
        ordmap::rising(ids(devices)),
    ensures
        ordmap::rising(ids(devices.drop_last())),
        !by_id(devices.drop_last()).dom().contains(devices.last().device_id),
        by_id(devices) == by_id(devices.drop_last()).insert(
            devices.last().device_id,
            devices.last(),
        ),
{
    let rest = devices.drop_last();
    let k = devices.last().device_id;
    let n = devices.len() - 1;
    assert(ids(rest) =~= ids(devices).take(n));
    assert forall|i: int, j: int| 0 <= i < j < ids(rest).len() implies text::text_less(
        #[trigger] ids(rest)[i],
        #[trigger] ids(rest)[j],
    ) by {
        assert(text::text_less(ids(devices)[i], ids(devices)[j]));
    }
    if ids(rest).contains(k) {
        let i = ids(rest).index_of(k);
        assert(text::text_less(ids(devices)[i], ids(devices)[n]));
        text::lemma_less_irreflexive(k);
    }
    lemma_id_place(devices, n);
    let a = by_id(devices);
    let b = by_id(rest).insert(k, devices.last());
    assert forall|x: Seq<char>| a.dom().contains(x) <==> b.dom().contains(x) by {
        if ids(devices).contains(x) {
            let i = ids(devices).index_of(x);
            if i < n {
                assert(ids(rest)[i] == x);
            }
        }
        if ids(rest).contains(x) {
            let i = ids(rest).index_of(x);
            assert(ids(devices)[i] == x);
        }
    }
    assert forall|x: Seq<char>| a.dom().contains(x) implies a[x] == b[x] by {
        if x != k {
            assert(ids(rest).contains(x));
            let i = ids(rest).index_of(x);
            assert(rest[i].device_id == x);
            lemma_id_place(rest, i);
            lemma_id_place(devices, i);
        }
    }
    assert(a =~= b);
}

/// Lists in order are determined by the devices in them.
proof fn lemma_lists_in_order(a: Seq<DeviceModel>, b: Seq<DeviceModel>)
    requires
        ordmap::rising(ids(a)),
        ordmap::rising(ids(b)),
        by_id(a) == by_id(b),
    ensures
        a == b,
    decreases a.len() + b.len(),
{
    if a.len() == 0 {
        if b.len() > 0 {
            lemma_id_place(b, 0);
            assert(by_id(a).dom().contains(b[0].device_id));
        }
        assert(a =~= b);
    } else if b.len() == 0 {
        lemma_id_place(a, 0);
        assert(by_id(b).dom().contains(a[0].device_id));
    } else {
        let ka = a.last().device_id;
        let kb = b.last().device_id;
        lemma_id_place(a, a.len() - 1);
        lemma_id_place(b, b.len() - 1);
        if ka != kb {
            let i = ids(a).index_of(kb);
            let j = ids(b).index_of(ka);
            assert(ids(a).contains(kb) && ids(b).contains(ka));
            assert(text::text_less(ids(a)[i], ids(a)[a.len() - 1]));
            assert(text::text_less(ids(b)[j], ids(b)[b.len() - 1]));
            text::lemma_less_transitive(ka, kb, ka);
            text::lemma_less_irreflexive(ka);
        }
        lemma_by_id_drop_last(a);
        lemma_by_id_drop_last(b);
        assert(by_id(a.drop_last()) =~= by_id(a).remove(ka));
        assert(by_id(b.drop_last()) =~= by_id(b).remove(ka));
        lemma_lists_in_order(a.drop_last(), b.drop_last());
        assert(a =~= a.drop_last().push(a.last()));
        assert(b =~= b.drop_last().push(b.last()));
    }
}

proof fn lemma_list_in_order(devices: Seq<DeviceModel>)
    requires
        ordmap::rising(ids(devices)),
    ensures
        last_by_id(devices) == by_id(devices),
    decreases devices.len(),
{
    if devices.len() == 0 {
        assert(by_id(devices) =~= Map::<Seq<char>, DeviceModel>::empty());
    } else {
        lemma_by_id_drop_last(devices);
        lemma_list_in_order(devices.drop_last());
    }
}

/// The paired devices survive a restart: a manager that is made of the list that another
/// gave out knows the same devices, in the same order.
pub proof fn law_devices_survive_a_restart(before: Seq<DeviceModel>, after: Seq<DeviceModel>)
    requires
        ordmap::rising(ids(before)),
        ordmap::rising(ids(after)),
        by_id(after) == last_by_id(before),
    ensures
        after == before,
{
    lemma_list_in_order(before);
    lemma_lists_in_order(after, before);
}

/// A step that is refused stores nothing, and the first step never does.
pub proof fn law_refused_steps_store_nothing(
    old: PairingModel,
    age: int,
    name: Seq<char>,
    bytes: Seq<u8>,
    fingerprint: Seq<char>,
    entropy: Option<Seq<u8>>,
    now: u64,
    begun: Result<BeginOutcome, PairingError>,
    verified: Result<PairedDevice, PairingError>,
    new: PairingModel,
)
    ensures
        begin_step(old, age, name, bytes, fingerprint, begun, new) ==> new.devices == old.devices,
        verify_step(old, age, bytes, entropy, now, verified, new) && verified is Err
            ==> new.devices == old.devices,
{
}

/// After a wrong confirmation or a right one no window is open any more: a code serves
/// one attempt.
pub proof fn law_a_code_serves_one_attempt(
    old: PairingModel,
    age: int,
    confirmation: Seq<u8>,
    entropy: Option<Seq<u8>>,
    now: u64,
    r: Result<PairedDevice, PairingError>,
    new: PairingModel,
)
    requires
        verify_step(old, age, confirmation, entropy, now, r, new),
        r is Ok || r == Err::<PairedDevice, PairingError>(PairingError::BadCode),
    ensures
        new.window is None,
{
}

/// A window lasts from its opening until its time is up: the first step of a pairing, right
/// or wrong, neither closes it nor starts its time anew, and only a confirmation, right or
/// wrong, closes it before.
pub proof fn law_windows_last_from_their_opening(
    old: PairingModel,
    at: std::time::Instant,
    later: std::time::Instant,
    name: Seq<char>,
    bytes: Seq<u8>,
    fingerprint: Seq<char>,
    entropy: Option<Seq<u8>>,
    secs: u64,
    begun: Result<BeginOutcome, PairingError>,
    verified: Result<PairedDevice, PairingError>,
    new: PairingModel,
)
    requires
        old.open_at(at),
    ensures
        begin_step(old, old.age_at(at), name, bytes, fingerprint, begun, new) ==> new.age_at(later)
            == old.age_at(later) && new.open_at(later) == old.open_at(later),
        verify_step(old, old.age_at(at), bytes, entropy, secs, verified, new) ==> (if verified is Ok
            || verified == Err::<PairedDevice, PairingError>(PairingError::BadCode) {
            !new.open_at(later)
        } else {
            new.open_at(later) == old.open_at(later)
        }),
{
}

/// A call that may change the window, with what it was given and what it gave.
pub enum CallModel {
    /// A window was opened.
    Open { code: Seq<char>, at: std::time::Instant },
    /// The window was closed.
    Close,
    /// A phone began.
    Begin {
        at: std::time::Instant,
        name: Seq<char>,
        message: Seq<u8>,
        fingerprint: Seq<char>,
        r: Result<BeginOutcome, PairingError>,
    },
    /// A phone confirmed.
    Verify {
        at: std::time::Instant,
        confirmation: Seq<u8>,
        entropy: Option<Seq<u8>>,
        secs: u64,
        r: Result<PairedDevice, PairingError>,
    },
}

impl CallModel {
    /// Whether the call takes the pairing state from `old` to `new`.
    pub open spec fn leads(self, old: PairingModel, new: PairingModel) -> bool {
        match self {
            CallModel::Open { code, at } => new == old.opened(code, at),
            CallModel::Close => new == (PairingModel { window: None, devices: old.devices }),
            CallModel::Begin { at, name, message, fingerprint, r } => begin_step(
                old,
                old.age_at(at),
                name,
                message,
                fingerprint,
                r,
                new,
            ),
            CallModel::Verify { at, confirmation, entropy, secs, r } => verify_step(
                old,
                old.age_at(at),
                confirmation,
                entropy,
                secs,
                r,
                new,
            ),
        }
    }

    /// Whether the call puts an end to a window that was opened before it: another opening, a
    /// close, or a confirmation, right or wrong.
    pub open spec fn supersedes(self) -> bool {
        match self {
            CallModel::Open { .. } => true,
            CallModel::Close => true,
            CallModel::Begin { .. } => false,
            CallModel::Verify { r, .. } => r is Ok || r == Err::<PairedDevice, PairingError>(
                PairingError::BadCode,
            ),
        }
    }

    /// Whether the call came no later than a moment: from wherever one counts, no more time
    /// had passed at the call than at the moment.
    pub open spec fn not_after(self, now: std::time::Instant) -> bool {
        match self {
            CallModel::Begin { at, .. } => forall|from: std::time::Instant|
                clock::seconds_between(from, at) <= #[trigger] clock::seconds_between(from, now),
            CallModel::Verify { at, .. } => forall|from: std::time::Instant|
                clock::seconds_between(from, at) <= #[trigger] clock::seconds_between(from, now),
            _ => true,
        }
    }
}

/// Whether `states` are the states of a manager that began without a window, before and after
/// each of some calls.
pub open spec fn history(states: Seq<PairingModel>, calls: Seq<CallModel>) -> bool {
    &&& states.len() == calls.len() + 1
    &&& states[0].window is None
    &&& forall|i: int|
        0 <= i < calls.len() ==> (#[trigger] calls[i]).leads(states[i], states[i + 1])
}

/// Whether call `k` is, of the first `n`, the last opening, and none after it put an end to
/// its window.
pub open spec fn stands(calls: Seq<CallModel>, n: int, k: int) -> bool {
    &&& 0 <= k < n
    &&& calls[k] is Open
    &&& forall|j: int| k < j < n ==> !(#[trigger] calls[j]).supersedes()
}

proof fn lemma_window_of_history(
    states: Seq<PairingModel>,
    calls: Seq<CallModel>,
    n: int,
    now: std::time::Instant,
)
    requires
        history(states, calls),
        0 <= n <= calls.len(),
        forall|i: int| 0 <= i < calls.len() ==> (#[trigger] calls[i]).not_after(now),
    ensures
        states[n].window is Some ==> exists|k: int| #[trigger] stands(calls, n, k),
        forall|k: int| #[trigger]
            stands(calls, n, k) ==> (match states[n].window {
                Some(w) => w.opened == calls[k]->Open_at,
                None => clock::seconds_between(calls[k]->Open_at, now) >= PAIRING_CODE_TTL_SECS,
            }),
    decreases n,
{
    if n > 0 {
        let m = n - 1;
        let call = calls[m];
        let old = states[m];
        let new = states[n];
        lemma_window_of_history(states, calls, m, now);
        assert(call.leads(states[m], states[m + 1]));
        assert(call.not_after(now));
        if call is Open {
            assert(stands(calls, n, m));
        } else if !call.supersedes() && new.window is Some {
            assert(old.window is Some);
            let k = choose|k: int| #[trigger] stands(calls, m, k);
            assert(stands(calls, n, k));
        }
        assert forall|k: int| #[trigger] stands(calls, n, k) implies (match new.window {
            Some(w) => w.opened == calls[k]->Open_at,
            None => clock::seconds_between(calls[k]->Open_at, now) >= PAIRING_CODE_TTL_SECS,
        }) by {
            if k < m {
                assert(!calls[m].supersedes());
                assert(stands(calls, m, k));
            }
        }
    }
}

/// After any calls on a manager, a window is open exactly when the last opening is less than
/// two minutes ago and neither a close nor a confirmation, right or wrong, came after it. The
/// clock does not run back: no call came after the moment at which this is asked.
pub proof fn law_windows_are_open_as_long_as_their_codes(
    states: Seq<PairingModel>,
    calls: Seq<CallModel>,
    now: std::time::Instant,
)
    requires
        history(states, calls),
        forall|i: int| 0 <= i < calls.len() ==> (#[trigger] calls[i]).not_after(now),
    ensures
        states.last().open_at(now) <==> exists|k: int| #[trigger]
            stands(calls, calls.len() as int, k) && clock::seconds_between(
                calls[k]->Open_at,
                now,
            ) < 120,
{
    let n = calls.len() as int;
    lemma_window_of_history(states, calls, n, now);
    if states.last().open_at(now) {
        let k = choose|k: int| #[trigger] stands(calls, n, k);
        assert(stands(calls, n, k));
    }
}

/// A code is good for two minutes from its opening: a window is open at a moment exactly when
/// that is less than two minutes later, and a step in a window whose time is up is refused
/// and closes it.
pub proof fn law_codes_expire(
    old: PairingModel,
    code: Seq<char>,
    opening: std::time::Instant,
    now: std::time::Instant,
    name: Seq<char>,
    bytes: Seq<u8>,
    fingerprint: Seq<char>,
    begun: Result<BeginOutcome, PairingError>,
    new: PairingModel,
)
    ensures
        old.opened(code, opening).open_at(now) <==> clock::seconds_between(opening, now) < 120,
        clock::seconds_between(opening, now) >= 120 && begin_step(
            old.opened(code, opening),
            old.opened(code, opening).age_at(now),
            name,
            bytes,
            fingerprint,
            begun,
            new,
        ) ==> begun == Err::<BeginOutcome, PairingError>(PairingError::Expired)
            && new.window is None && new.devices == old.devices,
{
}

/// A phone that uses the code of the open window is paired: the receiver answers its
/// first message, the confirmation in the answer is the one the phone expects, and the
/// phone's own confirmation is accepted.
pub proof fn law_the_right_code_pairs(
    old: PairingModel,
    age: int,
    phone: Seq<Seq<u8>>,
    name: Seq<char>,
    fingerprint: Seq<char>,
    begun: Result<BeginOutcome, PairingError>,
    mid: PairingModel,
    later: int,
    entropy: Seq<u8>,
    now: u64,
    verified: Result<PairedDevice, PairingError>,
    new: PairingModel,
)
    requires
        old.window matches Some(w) && w.stage is Waiting && phone == seq![
            seq![SIDE_A],
            utf8(w.code),
            phone_identity(),
            receiver_identity(),
            phone[4],
        ],
        secret::exchange_message(phone[4], SIDE_A),
        age < PAIRING_CODE_TTL_SECS,
        later < PAIRING_CODE_TTL_SECS,
        begin_step(old, age, name, phone[4], fingerprint, begun, mid),
        begun matches Ok(o) ==> verify_step(
            mid,
            later,
            phone_confirmation(secret::exchange_key(phone, o.spake_reply@)),
            Some(entropy),
            now,
            verified,
            new,
        ),
    ensures
        begun matches Ok(o) && o.receiver_confirmation@ == receiver_confirmation(
            secret::exchange_key(phone, o.spake_reply@),
        ),
        verified matches Ok(d) && by_id(new.devices).dom().contains(d@.device_id)
            && by_id(new.devices)[d@.device_id] == d@,
{
    assert(secret::begins(phone));
}

/// Every code comes from equally many random numbers: the numbers that are used fall into
/// 4772 rounds, and each round holds each code once.
pub proof fn law_codes_are_equally_likely(code: int, round: int, value: int)
    requires
        100_000 <= code <= 999_999,
    ensures
        code_limit() == 4_772 * 900_000,
        0 <= round < 4_772 ==> ({
            let v = round * 900_000 + (code - 100_000);
            0 <= v < code_limit() && 100_000 + v % 900_000 == code
        }),
        0 <= value < code_limit() && 100_000 + value % 900_000 == code ==> ({
            let k = value / 900_000;
            0 <= k < 4_772 && value == k * 900_000 + (code - 100_000)
        }),
{
}

/// A lookup by token finds the first device that has it, and finds none only where no device
/// has it.
pub proof fn law_tokens_find_their_device(devices: Seq<DeviceModel>, token: Seq<char>)
    ensures
        first_with_token(devices, token) is Some <==> exists|i: int|
            0 <= i < devices.len() && (#[trigger] devices[i]).token == token,
        first_with_token(devices, token) matches Some(d) ==> exists|i: int|
            0 <= i < devices.len() && #[trigger] devices[i] == d && d.token == token && forall|
                j: int,
            | 0 <= j < i ==> (#[trigger] devices[j]).token != token,
    decreases devices.len(),
{
    if devices.len() > 0 {
        let rest = devices.drop_first();
        law_tokens_find_their_device(rest, token);
        if devices[0].token == token {
            assert(devices[0].token == token);
        } else {
            match first_with_token(rest, token) {
                Some(d) => {
                    let i = choose|i: int|
                        0 <= i < rest.len() && #[trigger] rest[i] == d && d.token == token
                            && forall|j: int| 0 <= j < i ==> (#[trigger] rest[j]).token != token;
                    assert(devices[i + 1] == d);
                    assert forall|j: int| 0 <= j < i + 1 implies (#[trigger] devices[j]).token
                        != token by {
                        if j > 0 {
                            assert(rest[j - 1] == devices[j]);
                        }
                    }
                },
                None => {
                    assert forall|i: int| 0 <= i < devices.len() implies (
                    #[trigger] devices[i]).token != token by {
                        if i > 0 {
                            assert(rest[i - 1] == devices[i]);
                        }
                    }
                },
            }
        }
    }
}

proof fn lemma_known_devices(devices: Seq<DeviceModel>, x: DeviceModel)
    requires
        ordmap::rising(ids(devices)),
    ensures
        devices.contains(x) <==> by_id(devices).dom().contains(x.device_id)
            && by_id(devices)[x.device_id] == x,
{
    if devices.contains(x) {
        lemma_id_place(devices, devices.index_of(x));
    }
    if by_id(devices).dom().contains(x.device_id) && by_id(devices)[x.device_id] == x {
        let k = ids(devices).index_of(x.device_id);
        assert(ids(devices).contains(x.device_id));
        assert(devices[k] == x);
    }
}

/// A pairing that succeeds keeps every device that was paired before: the devices after it
/// are the new one and all those before it that have another identifier, as they were. So a
/// token that was known is still found, unless it belonged to the identifier that is replaced.
pub proof fn law_pairing_keeps_the_other_devices(
    old: PairingModel,
    age: int,
    confirmation: Seq<u8>,
    entropy: Option<Seq<u8>>,
    now: u64,
    d: PairedDevice,
    new: PairingModel,
    x: DeviceModel,
)
    requires
        ordmap::rising(ids(old.devices)),
        verify_step(old, age, confirmation, entropy, now, Ok(d), new),
    ensures
        new.devices.contains(x) <==> x == d@ || (old.devices.contains(x) && x.device_id
            != d@.device_id),
        x.device_id != d@.device_id ==> (by_id(new.devices).dom().contains(x.device_id) <==> by_id(
            old.devices,
        ).dom().contains(x.device_id)),
        x.device_id != d@.device_id && by_id(old.devices).dom().contains(x.device_id) ==> by_id(
            new.devices,
        )[x.device_id] == by_id(old.devices)[x.device_id],
        old.devices.contains(x) && x.device_id != d@.device_id ==> first_with_token(
            new.devices,
            x.token,
        ) is Some,
        new.window is None,
{
    lemma_known_devices(old.devices, x);
    lemma_known_devices(new.devices, x);
    if new.devices.contains(x) {
        let i = new.devices.index_of(x);
        assert(new.devices[i].token == x.token);
        law_tokens_find_their_device(new.devices, x.token);
    }
}

/// What is remembered of a phone that was paired: the name that it gave, its identifier from
/// name and key, the random bytes as its token, and the time. It is stored under these, and
/// found by its token.
pub proof fn law_what_is_remembered_of_a_phone(
    old: PairingModel,
    age: int,
    confirmation: Seq<u8>,
    bytes: Seq<u8>,
    now: u64,
    r: Result<PairedDevice, PairingError>,
    new: PairingModel,
    key: Seq<u8>,
    name: Seq<char>,
)
    requires
        old.window matches Some(w) && w.stage == (StageModel::KeyDerived { key, device_name: name }),
        verify_step(old, age, confirmation, Some(bytes), now, r, new),
    ensures
        r is Ok <==> age < 120 && confirmation == secret::sha256_of(
            key + vstd::utf8::encode_utf8("wdl-confirm-phone"@),
        ),
        r matches Ok(d) ==> ({
            let kept = text::trimmed(name);
            &&& d@.device_id == secret::hex_text(
                secret::sha256_of(vstd::utf8::encode_utf8(name) + key).take(16),
            )
            &&& d@.token == secret::hex_text(bytes)
            &&& d@.added_unix_secs == now
            &&& d@.name == (if kept.len() == 0 {
                "Unknown phone"@
            } else if kept.len() <= 64 {
                kept
            } else {
                kept.take(64)
            })
            &&& new.devices.contains(d@)
        }),
        age >= 120 ==> r == Err::<PairedDevice, PairingError>(PairingError::Expired),
        age < 120 && r is Err ==> r == Err::<PairedDevice, PairingError>(PairingError::BadCode),
        r is Err ==> new.devices == old.devices && new.window is None,
{
    match r {
        Ok(d) => {
            lemma_known_devices(new.devices, d@);
        },
        Err(_) => {},
    }
}

/// The first message of a phone is answered in every window that waits for one and whose time
/// is not up, whatever code the phone used: the answer proves that the receiver has the key
/// that follows from its own code, and the window waits for a confirmation with that key. In
/// all other cases the window and the devices stay as they are, but for a window whose time is
/// up, which closes.
pub proof fn law_first_messages_are_answered(
    old: PairingModel,
    age: int,
    name: Seq<char>,
    message: Seq<u8>,
    fingerprint: Seq<char>,
    r: Result<BeginOutcome, PairingError>,
    new: PairingModel,
)
    requires
        begin_step(old, age, name, message, fingerprint, r, new),
    ensures
        r is Ok <==> (old.window matches Some(w) && w.stage is Waiting) && age < 120
            && message.len() == 33 && message[0] == 65 && secret::curve_point(message.skip(1)),
        r matches Ok(o) ==> ({
            let w = old.window->0;
            let key = secret::spake2_key(
                vstd::utf8::encode_utf8(w.code),
                vstd::utf8::encode_utf8("wdl-phone"@),
                vstd::utf8::encode_utf8("wdl-receiver"@),
                message,
                o.spake_reply@,
            );
            &&& o.spake_reply@.len() == 33 && o.spake_reply@[0] == 66
            &&& o.receiver_fingerprint@ == fingerprint
            &&& o.receiver_confirmation@ == secret::sha256_of(
                key + vstd::utf8::encode_utf8("wdl-confirm-receiver"@),
            )
            &&& new.window == Some(
                WindowModel {
                    code: w.code,
                    opened: w.opened,
                    stage: StageModel::KeyDerived { key, device_name: name },
                },
            )
        }),
        new.devices == old.devices,
        old.window is None ==> r == Err::<BeginOutcome, PairingError>(PairingError::NoWindow),
        old.window is Some && age >= 120 ==> r == Err::<BeginOutcome, PairingError>(
            PairingError::Expired,
        ) && new.window is None,
        (old.window matches Some(w) && w.stage !is Waiting) && age < 120 ==> r == Err::<
            BeginOutcome,
            PairingError,
        >(PairingError::OutOfOrder),
        r is Err && (old.window is None || age < 120) ==> new == old,
{
}

/// A confirmation without a window, or before a first message, is refused and changes nothing.
pub proof fn law_early_confirmations_change_nothing(
    old: PairingModel,
    age: int,
    confirmation: Seq<u8>,
    entropy: Option<Seq<u8>>,
    now: u64,
    r: Result<PairedDevice, PairingError>,
    new: PairingModel,
)
    requires
        verify_step(old, age, confirmation, entropy, now, r, new),
    ensures
        old.window is None ==> r == Err::<PairedDevice, PairingError>(PairingError::NoWindow) && new
            == old,
        (old.window matches Some(w) && w.stage is Waiting) ==> r == Err::<
            PairedDevice,
            PairingError,
        >(PairingError::OutOfOrder) && new == old,
{
}

/// A pairing code is six decimal digits that make up a number from 100000 on.
pub proof fn law_codes_have_six_digits(s: Seq<char>)
    requires
        is_pairing_code(s),
    ensures
        s.len() == 6,
        forall|i: int| 0 <= i < 6 ==> '0' <= #[trigger] s[i] && s[i] <= '9',
        s[0] != '0',
        100_000 <= text::base10(s) <= 999_999,
{
    let n = choose|n: int| 100_000 <= n <= 999_999 && s == #[trigger] text::decimal(n as nat);
    text::law_decimals_make_up_their_number(n as nat);
    reveal_with_fuel(text::decimal, 7);
}

/// The model of a list of devices holds every device of it, in its place, field by field.
pub proof fn law_models_hold_every_device(list: Seq<PairedDevice>, i: int)
    requires
        0 <= i < list.len(),
    ensures
        device_views(list).len() == list.len(),
        device_views(list)[i].device_id == list[i].device_id@,
        device_views(list)[i].name == list[i].name@,
        device_views(list)[i].token == list[i].token@,
        device_views(list)[i].added_unix_secs == list[i].added_unix_secs,
        ids(device_views(list)).len() == list.len(),
        ids(device_views(list))[i] == list[i].device_id@,
{
}

/// Every refusal has a message of its own.
pub proof fn law_refusals_have_their_message(e: PairingError)
    ensures
        e is NoWindow ==> e.text() == "no pairing window is open"@,
        e is Expired ==> e.text() == "pairing window has expired"@,
        e is OutOfOrder ==> e.text() == "pairing handshake out of order"@,
        e is BadCode ==> e.text() == "pairing code rejected"@,
        e is NoEntropy ==> e.text() == "system entropy unavailable"@,
{
}

/// A name is stored without the white space around it, cut to its first 64 characters, and a
/// name of white space alone as that of an unknown phone.
pub proof fn law_stored_names_are_cut(name: Seq<char>)
    ensures
        stored_name(name) == (if text::trimmed(name).len() == 0 {
            "Unknown phone"@
        } else if text::trimmed(name).len() <= 64 {
            text::trimmed(name)
        } else {
            text::trimmed(name).take(64)
        }),
{
}

} // verus!
