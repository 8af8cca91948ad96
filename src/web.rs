use vstd::prelude::*;
use crate::day::Day;
use crate::ledger::{has_day, upsert, Ledger, StorageError};
use crate::mood::{mood_of_code, name_of, Ambition};

verus! {

/// HTTP status of an accepted request.
pub const STATUS_OK: u16 = 200;

/// HTTP status of a request with an invalid mood value.
pub const STATUS_BAD_REQUEST: u16 = 400;

/// The answer to a request that sets today's mood: a status and a one-entry JSON
/// object `{ key: flag }`, with the mood to store where the value was valid.
pub struct ApiReply {
    pub status: u16,
    pub key: String,
    pub flag: bool,
    pub mood: Option<Ambition>,
}

/// What the home page shows: the current mood's name and whether today has a record.
pub struct HomePage {
    pub current_mood: String,
    pub entry_exists: bool,
}

/// The reply owed to a request carrying mood code `value`: `{"<MoodName>": true}`
/// with status 200 for a valid code, `{"error": false}` with status 400 otherwise.
pub open spec fn is_reply_for(rep: ApiReply, value: u8) -> bool {
    match mood_of_code(value) {
        Some(m) => {
            &&& rep.status == STATUS_OK
            &&& rep.key@ == name_of(m)
            &&& rep.flag
            &&& rep.mood == Some(m)
        },
        None => {
            &&& rep.status == STATUS_BAD_REQUEST
            &&& rep.key@ == "error"@
            &&& !rep.flag
            &&& rep.mood is None
        },
    }
}

/// The mood shown as current, given the code of the latest stored record if any:
/// unmotivated where there is none or its code is not a mood.
pub open spec fn shown_mood(latest_code: Option<u8>) -> Ambition {
    match latest_code {
        Some(v) => match mood_of_code(v) {
            Some(m) => m,
            None => Ambition::Unmotivated,
        },
        None => Ambition::Unmotivated,
    }
}

/// Validates the mood code of a request that sets today's mood.
pub fn api_reply(value: u8) -> (r: ApiReply)
    ensures
        is_reply_for(r, value),
{
    match Ambition::from_u8(value) {
        Some(m) => ApiReply { status: STATUS_OK, key: m.name(), flag: true, mood: Some(m) },
        None => ApiReply {
            status: STATUS_BAD_REQUEST,
            key: "error".to_owned(),
            flag: false,
            mood: None,
        },
    }
}

/// Handles a request that sets the mood of `today` to code `value`: a valid code is
/// stored (overwriting today's record or inserting one), an invalid one leaves the
/// ledger untouched.
pub fn post_mood(ledger: &mut Ledger, today: Day, value: u8) -> (r: Result<ApiReply, StorageError>)
    requires
        old(ledger).wf(),
    ensures
        final(ledger).wf(),
        r matches Ok(rep) ==> is_reply_for(rep, value),
        match mood_of_code(value) {
            Some(m) => {
                &&& r is Err <==> !has_day(old(ledger)@, today) && old(ledger).spec_next_id()
                    == u64::MAX
                &&& r is Ok ==> final(ledger)@ == upsert(
                    old(ledger)@,
                    old(ledger).spec_next_id(),
                    today,
                    m,
                )
                &&& r is Err ==> *final(ledger) == *old(ledger)
            },
            None => r is Ok && *final(ledger) == *old(ledger),
        },
{
    let rep = api_reply(value);
    match rep.mood {
        Some(m) => match ledger.set_mood(today, m) {
            Ok(()) => Ok(rep),
            Err(e) => Err(e),
        },
        None => Ok(rep),
    }
}

/// The home page for the latest stored mood code (if any) and whether today has a record.
pub fn home_page(latest_code: Option<u8>, entry_exists: bool) -> (r: HomePage)
    ensures
        r.current_mood@ == name_of(shown_mood(latest_code)),
        r.entry_exists == entry_exists,
{
    let mood = match latest_code {
        Some(v) => match Ambition::from_u8(v) {
            Some(m) => m,
            None => Ambition::Unmotivated,
        },
        None => Ambition::Unmotivated,
    };
    HomePage { current_mood: mood.name(), entry_exists }
}

} // verus!
