use vstd::prelude::*;

use crate::error::ResyError;
use crate::poll::{filter_matching, matching};
use crate::race::BookingOutcome;
use crate::types::{BookingConfig, DetailsResponse, FindResponse, Slot};

verus! {

/// What `urlencoding::encode` returns on a given character sequence.
pub uninterp spec fn url_encoded(s: Seq<char>) -> Seq<char>;

/// The compact JSON text of an object with the single field `key` holding the
/// number `value`, as `serde_json` writes it.
pub uninterp spec fn json_u64_object(key: Seq<char>, value: u64) -> Seq<char>;

/// Relies on `urlencoding::encode`: percent-encodes every byte of the UTF-8 form
/// but ASCII letters, digits and `-._~`; the empty string stays empty.
#[verifier::external_body]
fn url_encode(s: &str) -> (r: String)
    ensures
        r@ == url_encoded(s@),
        s@.len() == 0 ==> r@.len() == 0,
{
    urlencoding::encode(s).into_owned()
}

/// Relies on `serde_json::Map::insert`, `serde_json::Value::from(u64)` and the
/// compact `Display` of `serde_json::Value`.
#[verifier::external_body]
fn json_object_with_u64(key: &str, value: u64) -> (r: String)
    ensures
        r@ == json_u64_object(key@, value),
{
    let mut m = serde_json::Map::new();
    m.insert(key.to_string(), serde_json::Value::from(value));
    serde_json::Value::Object(m).to_string()
}

pub open spec fn digit_char(d: nat) -> char {
    if d == 0 {
        '0'
    } else if d == 1 {
        '1'
    } else if d == 2 {
        '2'
    } else if d == 3 {
        '3'
    } else if d == 4 {
        '4'
    } else if d == 5 {
        '5'
    } else if d == 6 {
        '6'
    } else if d == 7 {
        '7'
    } else if d == 8 {
        '8'
    } else {
        '9'
    }
}

/// The decimal digits of `n`, most significant first, without leading zeros.
pub open spec fn decimal(n: nat) -> Seq<char>
    decreases n,
{
    if n < 10 {
        seq![digit_char(n)]
    } else {
        decimal(n / 10) + seq![digit_char(n % 10)]
    }
}

fn digit_str(d: u64) -> (r: &'static str)
    requires
        d < 10,
    ensures
        r@ == seq![digit_char(d as nat)],
{
    proof {
        reveal_strlit("0");
        reveal_strlit("1");
        reveal_strlit("2");
        reveal_strlit("3");
        reveal_strlit("4");
        reveal_strlit("5");
        reveal_strlit("6");
        reveal_strlit("7");
        reveal_strlit("8");
        reveal_strlit("9");
    }
    let r = if d == 0 {
        "0"
    } else if d == 1 {
        "1"
    } else if d == 2 {
        "2"
    } else if d == 3 {
        "3"
    } else if d == 4 {
        "4"
    } else if d == 5 {
        "5"
    } else if d == 6 {
        "6"
    } else if d == 7 {
        "7"
    } else if d == 8 {
        "8"
    } else {
        "9"
    };
    assert(r@ =~= seq![digit_char(d as nat)]);
    r
}

/// The decimal representation of `n`.
pub fn decimal_string(n: u64) -> (r: String)
    ensures
        r@ == decimal(n as nat),
    decreases n,
{
    if n < 10 {
        String::from_str(digit_str(n))
    } else {
        let mut s = decimal_string(n / 10);
        s.append(digit_str(n % 10));
        s
    }
}

pub open spec fn venue_details_url_spec(venue_id: Seq<char>) -> Seq<char> {
    "https://api.resy.com/2/config?venue_id="@ + venue_id
}

/// Address of the venue lookup for `venue_id`.
pub fn venue_details_url(venue_id: &str) -> (r: String)
    ensures
        r@ == venue_details_url_spec(venue_id@),
{
    let mut s = String::from_str("https://api.resy.com/2/config?venue_id=");
    s.append(venue_id);
    s
}

pub open spec fn find_slots_url_spec(venue_id: Seq<char>, party_size: u32, day: Seq<char>) -> Seq<
    char,
> {
    "https://api.resy.com/4/find?party_size="@ + decimal(party_size as nat) + "&venue_id="@
        + venue_id + "&day="@ + day + "&lat=0&long=0"@
}

/// Address of the availability search for a venue, party size and day.
pub fn find_slots_url(venue_id: &str, party_size: u32, day: &str) -> (r: String)
    ensures
        r@ == find_slots_url_spec(venue_id@, party_size, day@),
{
    let mut s = String::from_str("https://api.resy.com/4/find?party_size=");
    let n = decimal_string(party_size as u64);
    s.append(n.as_str());
    s.append("&venue_id=");
    s.append(venue_id);
    s.append("&day=");
    s.append(day);
    s.append("&lat=0&long=0");
    s
}

pub open spec fn authorization_spec(api_key: Seq<char>) -> Seq<char> {
    "ResyAPI api_key=\""@ + api_key + "\""@
}

/// Value of the `authorization` header for an API key.
pub fn authorization_value(api_key: &str) -> (r: String)
    ensures
        r@ == authorization_spec(api_key@),
{
    let mut s = String::from_str("ResyAPI api_key=\"");
    s.append(api_key);
    s.append("\"");
    s
}

/// The token-exchange request for `slot`: its claim token, the day and the party size.
pub fn booking_config_for(slot: &Slot, day: &str, party_size: u32) -> (r: BookingConfig)
    ensures
        r.config_id@ == slot.config.token@,
        r.day@ == day@,
        r.party_size == party_size,
{
    BookingConfig {
        config_id: slot.config.token.clone(),
        day: String::from_str(day),
        party_size,
    }
}

/// The payment method a booking uses: the first one listed, if any.
pub open spec fn payment_choice(details: DetailsResponse) -> Option<u64> {
    match details.user.payment_methods {
        Some(v) => if v@.len() > 0 {
            Some(v@[0].id)
        } else {
            None
        },
        None => None,
    }
}

/// Picks the payment method for the commit step.
pub fn select_payment_id(details: &DetailsResponse) -> (r: Option<u64>)
    ensures
        r == payment_choice(*details),
{
    match &details.user.payment_methods {
        Some(v) => if v.len() > 0 {
            Some(v[0].id)
        } else {
            None
        },
        None => None,
    }
}

/// The commit form from the already-encoded booking token and, if a payment
/// method is used, its already-encoded JSON.
pub open spec fn commit_form(encoded_token: Seq<char>, encoded_payment: Option<Seq<char>>) -> Seq<
    char,
> {
    match encoded_payment {
        Some(p) => "book_token="@ + encoded_token + "&struct_payment_method="@ + p,
        None => "book_token="@ + encoded_token,
    }
}

pub open spec fn encoded_payment(payment_id: Option<u64>) -> Option<Seq<char>> {
    match payment_id {
        Some(id) => Some(url_encoded(json_u64_object("id"@, id))),
        None => None,
    }
}

/// Assembles the commit form from encoded parts.
pub fn commit_form_from_encoded(encoded_token: &str, encoded_payment: Option<&str>) -> (r: String)
    ensures
        r@ == commit_form(
            encoded_token@,
            match encoded_payment {
                Some(p) => Some(p@),
                None => None,
            },
        ),
{
    let mut s = String::from_str("book_token=");
    s.append(encoded_token);
    if let Some(p) = encoded_payment {
        s.append("&struct_payment_method=");
        s.append(p);
    }
    s
}

/// The form body that commits a booking token, with the chosen payment method.
pub fn commit_form_body(book_token: &str, payment_id: Option<u64>) -> (r: String)
    ensures
        r@ == commit_form(url_encoded(book_token@), encoded_payment(payment_id)),
{
    let token = url_encode(book_token);
    match payment_id {
        Some(id) => {
            let json = json_object_with_u64("id", id);
            let payment = url_encode(json.as_str());
            commit_form_from_encoded(token.as_str(), Some(payment.as_str()))
        },
        None => commit_form_from_encoded(token.as_str(), None),
    }
}

/// The commit form for the reply of a token exchange.
pub fn commit_form_for(details: &DetailsResponse) -> (r: String)
    ensures
        r@ == commit_form(url_encoded(details.book_token.value@), encoded_payment(payment_choice(*details))),
{
    let id = select_payment_id(details);
    commit_form_body(details.book_token.value.as_str(), id)
}

/// A copy of a list of slots, equal to it element by element.
pub fn copy_slots(v: &Vec<Slot>) -> (r: Vec<Slot>)
    ensures
        r@ == v@,
{
    let mut out: Vec<Slot> = Vec::new();
    let mut i: usize = 0;
    while i < v.len()
        invariant
            i <= v@.len(),
            out@ == v@.subrange(0, i as int),
        decreases v@.len() - i,
    {
        out.push(v[i].copied());
        i = i + 1;
        assert(out@ =~= v@.subrange(0, i as int));
    }
    assert(v@.subrange(0, v@.len() as int) =~= v@);
    out
}

/// The slots of the first venue in a search reply; no venue is `NoAvailability`.
pub fn first_venue_slots(resp: &FindResponse) -> (r: Result<Vec<Slot>, ResyError>)
    ensures
        resp.results.venues@.len() == 0 <==> r is Err,
        r is Err ==> r == Err::<Vec<Slot>, ResyError>(ResyError::NoAvailability),
        r is Ok ==> r->Ok_0@ == resp.results.venues@[0].slots@,
{
    if resp.results.venues.len() == 0 {
        Err(ResyError::NoAvailability)
    } else {
        Ok(copy_slots(&resp.results.venues[0].slots))
    }
}

/// The matching slots of a search, or `NoMatch` when there are none.
pub fn select_matching(slots: &Vec<Slot>, times: &[String], types: &[String]) -> (r: Result<
    Vec<Slot>,
    ResyError,
>)
    ensures
        matching(slots@, times@, types@).len() == 0 <==> r is Err,
        r is Err ==> r == Err::<Vec<Slot>, ResyError>(ResyError::NoMatch),
        r is Ok ==> r->Ok_0@ == matching(slots@, times@, types@),
{
    let m = filter_matching(slots, times, types);
    if m.len() == 0 {
        Err(ResyError::NoMatch)
    } else {
        Ok(m)
    }
}

/// The caller-visible result of a race: the attempt total on success,
/// `Exhausted` with the totals otherwise.
pub fn race_result(outcome: &BookingOutcome, workers: u64) -> (r: Result<u64, ResyError>)
    ensures
        outcome.is_success() ==> r == Ok::<u64, ResyError>(outcome.attempt_count()),
        !outcome.is_success() ==> r == Err::<u64, ResyError>(
            ResyError::Exhausted { attempts: outcome.attempt_count(), workers },
        ),
{
    match outcome {
        BookingOutcome::Success { attempts } => Ok(*attempts),
        BookingOutcome::Exhausted { attempts, .. } => Err(
            ResyError::Exhausted { attempts: *attempts, workers },
        ),
    }
}

} // verus!
