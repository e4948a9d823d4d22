//! Per-account settings: the timezone used to render absolute times.

use vstd::prelude::*;
use vstd::string::*;

use crate::store::Store;
use crate::store::StoreModel;
use crate::time::is_valid_tz;
use crate::time::tz_valid;

verus! {

/// The timezone a user's renderings go through: the stored setting, or
/// UTC where none was stored.
pub open spec fn tz_text(s: StoreModel, user: u64) -> Seq<char> {
    match s.timezone_of(user) {
        Option::Some(t) => t,
        Option::None => "UTC"@,
    }
}

/// The caller's timezone setting, defaulting to UTC.
pub fn get_user_timezone(store: &Store, user_id: u64) -> (r: String)
    ensures
        r@ == tz_text(store@, user_id),
{
    match store.timezone_get(user_id) {
        Some(t) => t,
        None => String::from_str("UTC"),
    }
}

/// Store `user_id`'s timezone, if and only if the name is a timezone of
/// the IANA database; an invalid name is rejected at write time and the
/// store stands unchanged.
pub fn set_timezone(store: &mut Store, user_id: u64, timezone: String) -> (ok: bool)
    requires
        old(store)@.inv(),
    ensures
        ok == is_valid_tz(timezone@),
        ok ==> final(store)@ == old(store)@.with_timezones(
            old(store)@.timezones.insert(user_id, timezone@),
        ),
        !ok ==> final(store)@ == old(store)@,
        final(store)@.inv(),
{
    if tz_valid(timezone.as_str()) {
        store.timezone_set(user_id, timezone);
        true
    } else {
        false
    }
}

} // verus!
