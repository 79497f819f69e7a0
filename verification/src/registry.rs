//! Making the entries of the game's registries known.
//!
//! Fetching a resource and building a block out of its text happen elsewhere. Here it is decided
//! what is fetched, which text is tried, and when to give up.

use vstd::prelude::*;
use vstd::utf8::{decode_utf8, encode_utf8, valid_utf8};

verus! {

/// The registry number of blocks, the only entries that can be made known.
pub const BLOCK_ENTRY: i32 = 0;

/// The block states text that stands in for one that no block can be built of.
pub const FALLBACK_BLOCK_STATES: &'static str =
    "{\"variants\":{\"\": {\"model\": \"minecraft:block/bedrock\"}}}";

/// How far the registration of a block is.
#[derive(Clone, Copy, Debug, PartialEq, Eq, Structural)]
pub enum Registration {
    Fetching,
    TryingResource,
    TryingFallback,
    Registered,
    Failed,
}

/// What came of the last action.
#[derive(Debug, PartialEq, Eq)]
pub enum RegistrationEvent {
    Fetched(Vec<u8>),
    Built,
    Rejected,
}

/// What is to be done next.
#[derive(Debug, PartialEq, Eq)]
pub enum RegistrationAction {
    Build(String),
    Insert,
    Fail,
}

/// The state that follows `state` on `event`.
pub open spec fn state_after(state: Registration, event: RegistrationEvent) -> Registration {
    match (state, event) {
        (Registration::Fetching, RegistrationEvent::Fetched(bytes)) => {
            if valid_utf8(bytes@) {
                Registration::TryingResource
            } else {
                Registration::Failed
            }
        },
        (Registration::TryingResource, RegistrationEvent::Rejected) => {
            Registration::TryingFallback
        },
        (Registration::TryingResource, RegistrationEvent::Built) => Registration::Registered,
        (Registration::TryingFallback, RegistrationEvent::Built) => Registration::Registered,
        _ => Registration::Failed,
    }
}

/// Whether `action` is the one that belongs to the state that `event` led to.
pub open spec fn action_fits(
    next: Registration,
    event: RegistrationEvent,
    action: RegistrationAction,
) -> bool {
    match next {
        Registration::TryingResource => {
            event matches RegistrationEvent::Fetched(bytes) && (
            action matches RegistrationAction::Build(text) && text@ == decode_utf8(bytes@))
        },
        Registration::TryingFallback => {
            action matches RegistrationAction::Build(text) && text@ == FALLBACK_BLOCK_STATES@
        },
        Registration::Registered => action == RegistrationAction::Insert,
        _ => action == RegistrationAction::Fail,
    }
}

/// Calls `std::str::from_utf8`: bytes that are valid UTF-8 become the text that they encode, and
/// others become nothing.
#[verifier::external_body]
fn text_of(bytes: &[u8]) -> (r: Option<String>)
    ensures
        r is Some <==> valid_utf8(bytes@),
        r matches Some(text) ==> text@ == decode_utf8(bytes@),
{
    std::str::from_utf8(bytes).ok().map(String::from)
}

/// Begins to make an entry known: what is fetched first is the block states file of the entry at
/// `path`. There is none where the entry is not a block.
pub fn register_entry(entry_type: i32, path: &str) -> (r: Option<(Registration, String)>)
    ensures
        r is Some <==> entry_type == BLOCK_ENTRY,
        r matches Some((state, resource)) ==> state == Registration::Fetching && resource@
            == "blockstates/"@ + path@ + ".json"@,
{
    if entry_type == BLOCK_ENTRY {
        let resource: String = String::from_str("blockstates/").concat(path).concat(".json");
        Some((Registration::Fetching, resource))
    } else {
        None
    }
}

impl Registration {
    /// Goes on after `event`.
    pub fn step(self, event: RegistrationEvent) -> (r: (Registration, RegistrationAction))
        ensures
            r.0 == state_after(self, event),
            action_fits(r.0, event, r.1),
    {
        match (self, event) {
            (Registration::Fetching, RegistrationEvent::Fetched(bytes)) => {
                match text_of(bytes.as_slice()) {
                    Some(text) => (Registration::TryingResource, RegistrationAction::Build(text)),
                    None => (Registration::Failed, RegistrationAction::Fail),
                }
            },
            (Registration::TryingResource, RegistrationEvent::Rejected) => (
                Registration::TryingFallback,
                RegistrationAction::Build(String::from_str(FALLBACK_BLOCK_STATES)),
            ),
            (Registration::TryingResource, RegistrationEvent::Built) => (
                Registration::Registered,
                RegistrationAction::Insert,
            ),
            (Registration::TryingFallback, RegistrationEvent::Built) => (
                Registration::Registered,
                RegistrationAction::Insert,
            ),
            _ => (Registration::Failed, RegistrationAction::Fail),
        }
    }
}

/// Whether nothing more is to be done.
pub open spec fn is_over(state: Registration) -> bool {
    state == Registration::Registered || state == Registration::Failed
}

/// A registration is over after three events at the latest: one fetch and two attempts.
pub proof fn registration_ends(
    first: RegistrationEvent,
    second: RegistrationEvent,
    third: RegistrationEvent,
)
    ensures
        ({
            let one = state_after(Registration::Fetching, first);
            let two = state_after(one, second);
            let three = state_after(two, third);
            is_over(one) || is_over(two) || is_over(three)
        }),
{
}

/// A block is registered after its own text was fetched and taken, or after that text was
/// rejected and the one that stands in for it was taken, and in no other way.
pub proof fn registration_needs_a_built_block(
    first: RegistrationEvent,
    second: RegistrationEvent,
    third: RegistrationEvent,
)
    ensures
        ({
            let one = state_after(Registration::Fetching, first);
            let two = state_after(one, second);
            let three = state_after(two, third);
            let fetched = first matches RegistrationEvent::Fetched(bytes) && valid_utf8(bytes@);
            &&& one != Registration::Registered
            &&& two == Registration::Registered <==> fetched && second == RegistrationEvent::Built
            &&& three == Registration::Registered <==> fetched && second
                == RegistrationEvent::Rejected && third == RegistrationEvent::Built
        }),
{
}

/// Only an entry of number zero is begun. What is fetched first has the path between the folder and
/// the ending of block states files, so that different paths lead to different files.
pub proof fn paths_lead_to_their_files(
    entry_type: i32,
    path: &str,
    begun: Option<(Registration, String)>,
    other_path: &str,
    other_begun: Option<(Registration, String)>,
)
    requires
        call_ensures(register_entry, (entry_type, path), begun),
        call_ensures(register_entry, (entry_type, other_path), other_begun),
    ensures
        begun is Some <==> entry_type == 0,
        begun matches Some((state, file)) ==> {
            &&& state is Fetching
            &&& file@.len() == 12 + path@.len() + 5
            &&& file@.take(12) == "blockstates/"@
            &&& file@.subrange(12, 12int + path@.len()) == path@
            &&& file@.skip(12int + path@.len()) == ".json"@
        },
        begun matches Some((state, file)) ==> (other_begun matches Some((other_state, other_file))
            && (file@ == other_file@ <==> path@ == other_path@)),
{
    reveal_strlit("blockstates/");
    reveal_strlit(".json");
    if entry_type == 0 {
        let (file, other_file) = (begun.unwrap().1@, other_begun.unwrap().1@);
        assert(file.take(12) =~= "blockstates/"@);
        assert(file.subrange(12, 12int + path@.len()) =~= path@);
        assert(file.skip(12int + path@.len()) =~= ".json"@);
        assert(other_file.subrange(12, 12int + other_path@.len()) =~= other_path@);
    }
}

/// Of bytes that were fetched, the text that they encode is built, whatever it says and however
/// long it is: encoding the text gives the bytes back. Bytes that encode no text are the end.
pub proof fn fetched_text_is_built(bytes: Vec<u8>, result: (Registration, RegistrationAction))
    requires
        call_ensures(
            Registration::step,
            (Registration::Fetching, RegistrationEvent::Fetched(bytes)),
            result,
        ),
    ensures
        valid_utf8(bytes@) ==> result.0 is TryingResource && (
        result.1 matches RegistrationAction::Build(text) && text@ == decode_utf8(bytes@)
            && encode_utf8(text@) == bytes@),
        !valid_utf8(bytes@) ==> result.0 is Failed && result.1 is Fail,
{
    if valid_utf8(bytes@) {
        vstd::utf8::decode_utf8_encode_utf8(bytes@);
    }
}

/// What a step does: a text is built after a fetch or after the rejection of the fetched text, and
/// in no other case, and after the rejection it is the text of bedrock. A block is inserted after
/// it was built, from whichever text, and in no other case. Everything else is a failure.
pub proof fn steps_follow_what_came(
    state: Registration,
    event: RegistrationEvent,
    result: (Registration, RegistrationAction),
)
    requires
        call_ensures(Registration::step, (state, event), result),
    ensures
        result.0 is TryingResource <==> state is Fetching && (
        event matches RegistrationEvent::Fetched(bytes) && valid_utf8(bytes@)),
        result.0 is TryingFallback <==> state is TryingResource && event is Rejected,
        result.0 is Registered <==> (state is TryingResource || state is TryingFallback)
            && event is Built,
        !(result.0 is Fetching),
        result.1 is Build <==> result.0 is TryingResource || result.0 is TryingFallback,
        result.1 is Insert <==> result.0 is Registered,
        result.1 is Fail <==> result.0 is Failed,
        result.0 is TryingFallback ==> (result.1 matches RegistrationAction::Build(text) && text@
            == "{\"variants\":{\"\": {\"model\": \"minecraft:block/bedrock\"}}}"@),
{
}

/// Over a whole registration: the first text that is built is the one that was fetched. The text of
/// bedrock is built only once that one was rejected, and a block is inserted only right after a
/// text was taken.
pub proof fn bedrock_only_after_a_rejection(
    bytes: Vec<u8>,
    second: RegistrationEvent,
    third: RegistrationEvent,
    one: (Registration, RegistrationAction),
    two: (Registration, RegistrationAction),
    three: (Registration, RegistrationAction),
)
    requires
        call_ensures(
            Registration::step,
            (Registration::Fetching, RegistrationEvent::Fetched(bytes)),
            one,
        ),
        call_ensures(Registration::step, (one.0, second), two),
        call_ensures(Registration::step, (two.0, third), three),
    ensures
        one.1 matches RegistrationAction::Build(text) ==> encode_utf8(text@) == bytes@,
        two.1 is Build ==> one.1 is Build && second is Rejected,
        two.1 is Insert <==> one.1 is Build && second is Built,
        three.1 is Insert <==> two.1 is Build && third is Built,
        !(three.1 is Build),
{
    if valid_utf8(bytes@) {
        vstd::utf8::decode_utf8_encode_utf8(bytes@);
    }
}

} // verus!
