//! Who this device is: an id drawn at random when the process starts, and the
//! name of the machine it runs on.

use vstd::prelude::*;
use vstd::string::*;
use crate::registry::AppState;

verus! {

/// A lower-case hexadecimal digit.
pub open spec fn is_lower_hex(c: char) -> bool {
    ('0' <= c && c <= '9') || ('a' <= c && c <= 'f')
}

/// The hyphenated form of a UUID: 36 characters, hyphens after the 8th, 12th,
/// 16th and 20th hexadecimal digit, and lower-case hexadecimal digits elsewhere.
pub open spec fn is_uuid_text(s: Seq<char>) -> bool {
    &&& s.len() == 36
    &&& forall|i: int|
        0 <= i < 36 ==> if i == 8 || i == 13 || i == 18 || i == 23 {
            #[trigger] s[i] == '-'
        } else {
            is_lower_hex(#[trigger] s[i])
        }
}

/// The name a device goes by where the machine will not tell its own.
pub open spec fn unknown_device() -> Seq<char> {
    "Unknown Device"@
}

/// The display name for a machine, given what the machine says it is called.
pub open spec fn display_name(host: Option<Seq<char>>) -> Seq<char> {
    match host {
        Some(name) => name,
        None => unknown_device(),
    }
}

/// Calls `uuid::Uuid::new_v4` and writes the result with the crate's `Display`,
/// which is the hyphenated lower-case form. The text has that shape whatever
/// bits were drawn; nothing is claimed of the bits themselves. The call panics
/// where the operating system hands out no random bytes.
#[verifier::external_body]
pub(crate) fn random_uuid_text() -> (r: String)
    ensures
        is_uuid_text(r@),
{
    uuid::Uuid::new_v4().to_string()
}

/// Calls `hostname::get` and turns the name into text, replacing what is not
/// valid Unicode. Nothing is claimed of the answer: it is whatever the machine
/// says, or nothing where asking failed.
#[verifier::external_body]
fn system_host_name() -> (r: Option<String>)
{
    match hostname::get() {
        Ok(name) => Some(name.to_string_lossy().into_owned()),
        Err(_) => None,
    }
}

/// The display name for a machine, given what the machine says it is called.
pub fn device_name_from(host: Option<String>) -> (r: String)
    ensures
        r@ == display_name(
            match host {
                Some(name) => Some(name@),
                None => None,
            },
        ),
{
    match host {
        Some(name) => name,
        None => String::from_str("Unknown Device"),
    }
}

/// The registry that a process starts with: a fresh id, the machine's name, no
/// peers and no notifications.
pub fn initial_state() -> (r: AppState)
    ensures
        is_uuid_text(r@.device_id),
        r@.peers == Map::<Seq<char>, crate::model::PeerDeviceView>::empty(),
        r@.notifications == Seq::<crate::model::SyncNotificationView>::empty(),
{
    let device_id: String = random_uuid_text();
    let device_name: String = device_name_from(system_host_name());
    AppState::new(device_id, device_name)
}

/// An id in UUID form holds neither an underscore nor a dot, so it can be read
/// back from an instance name.
pub proof fn lemma_uuid_text_is_plain(s: Seq<char>)
    requires
        is_uuid_text(s),
    ensures
        forall|i: int| 0 <= i < s.len() ==> s[i] != '_' && s[i] != '.',
{
    assert forall|i: int| 0 <= i < s.len() implies s[i] != '_' && s[i] != '.' by {
        if i == 8 || i == 13 || i == 18 || i == 23 {
            assert(s[i] == '-');
        } else {
            assert(is_lower_hex(s[i]));
        }
    }
}

} // verus!
