use vstd::prelude::*;

verus! {

/// Body of the request that exchanges a slot's claim token for a booking token.
#[derive(Debug, Clone)]
pub struct BookingConfig {
    pub config_id: String,
    pub day: String,
    pub party_size: u32,
}

/// Reply of the availability search.
#[derive(Debug, Clone)]
pub struct FindResponse {
    pub results: Results,
}

#[derive(Debug, Clone)]
pub struct Results {
    pub venues: Vec<Venue>,
}

#[derive(Debug, Clone)]
pub struct Venue {
    pub slots: Vec<Slot>,
}

/// A bookable opportunity: start timestamp, type label and claim token.
#[derive(Debug, Clone)]
pub struct Slot {
    pub date: SlotDate,
    pub config: SlotConfig,
}

#[derive(Debug, Clone)]
pub struct SlotDate {
    pub start: String,
}

#[derive(Debug, Clone)]
pub struct SlotConfig {
    pub slot_type: String,
    pub token: String,
}

/// Reply of the venue lookup.
#[derive(Debug, Clone)]
pub struct VenueResponse {
    pub venue: VenueInfo,
}

#[derive(Debug, Clone)]
pub struct VenueInfo {
    pub name: String,
}

/// Reply of the token exchange: a single-use booking token and the user's payment methods.
#[derive(Debug, Clone)]
pub struct DetailsResponse {
    pub book_token: BookToken,
    pub user: User,
}

#[derive(Debug, Clone)]
pub struct BookToken {
    pub value: String,
}

#[derive(Debug, Clone)]
pub struct User {
    pub payment_methods: Option<Vec<PaymentMethod>>,
}

#[derive(Debug, Clone)]
pub struct PaymentMethod {
    pub id: u64,
}

/// The characters with the Unicode `White_Space` property.
pub open spec fn is_white_space(c: char) -> bool {
    ('\u{9}' <= c && c <= '\u{d}') || c == ' ' || c == '\u{85}' || c == '\u{a0}' || c
        == '\u{1680}' || ('\u{2000}' <= c && c <= '\u{200a}') || c == '\u{2028}' || c
        == '\u{2029}' || c == '\u{202f}' || c == '\u{205f}' || c == '\u{3000}'
}

/// First index at or after `i` that is the end of `s` or holds no white space.
pub open spec fn skip_space(s: Seq<char>, i: int) -> int
    decreases s.len() - i,
{
    if i < 0 || i >= s.len() || !is_white_space(s[i]) {
        i
    } else {
        skip_space(s, i + 1)
    }
}

/// First index at or after `i` that is the end of `s` or holds white space.
pub open spec fn skip_word(s: Seq<char>, i: int) -> int
    decreases s.len() - i,
{
    if i < 0 || i >= s.len() || is_white_space(s[i]) {
        i
    } else {
        skip_word(s, i + 1)
    }
}

/// The time-of-day part of a timestamp such as `2024-05-01 19:00:00`: its second
/// white-space separated word, or the empty sequence when it has fewer than two.
pub open spec fn time_of_day(start: Seq<char>) -> Seq<char> {
    let a = skip_space(start, 0);
    let b = skip_word(start, a);
    let c = skip_space(start, b);
    let d = skip_word(start, c);
    start.subrange(c, d)
}

/// What `str::to_lowercase` returns on a given character sequence.
pub uninterp spec fn lower_of(s: Seq<char>) -> Seq<char>;

/// The views of a list of strings.
pub open spec fn views(v: Seq<String>) -> Seq<Seq<char>> {
    v.map_values(|s: String| s@)
}

/// The filter rule on already-extracted, already case-folded values: an empty
/// list accepts anything, otherwise one entry must be equal.
pub open spec fn filters_accept(
    slot_time: Seq<char>,
    slot_type: Seq<char>,
    times: Seq<Seq<char>>,
    types: Seq<Seq<char>>,
) -> bool {
    (times.len() == 0 || exists|i: int| 0 <= i < times.len() && times[i] == slot_time) && (
    types.len() == 0 || exists|j: int| 0 <= j < types.len() && types[j] == slot_type)
}

/// Does a slot with this start and type satisfy the desired times and types?
/// Times compare verbatim with the time-of-day part; types compare case-folded.
pub open spec fn slot_matches(
    start: Seq<char>,
    slot_type: Seq<char>,
    times: Seq<Seq<char>>,
    types: Seq<Seq<char>>,
) -> bool {
    filters_accept(
        time_of_day(start),
        lower_of(slot_type),
        times,
        types.map_values(|t: Seq<char>| lower_of(t)),
    )
}

impl Slot {
    pub open spec fn spec_matches(&self, times: Seq<String>, types: Seq<String>) -> bool {
        slot_matches(self.date.start@, self.config.slot_type@, views(times), views(types))
    }

    /// Whether this slot satisfies the caller's filters.
    pub fn matches(&self, times: &[String], types: &[String]) -> (r: bool)
        ensures
            r == self.spec_matches(times@, types@),
    {
        let slot_time = time_of_day_of(self.date.start.as_str());
        let slot_type = lowercase(self.config.slot_type.as_str());
        let mut folded: Vec<String> = Vec::new();
        let mut j: usize = 0;
        while j < types.len()
            invariant
                j <= types@.len(),
                folded@.len() == j,
                forall|k: int| 0 <= k < j ==> #[trigger] folded@[k]@ == lower_of(types@[k]@),
            decreases types@.len() - j,
        {
            folded.push(lowercase(types[j].as_str()));
            j = j + 1;
        }
        let r = matches_folded(&slot_time, &slot_type, times, folded.as_slice());
        proof {
            assert(views(folded@) =~= views(types@).map_values(|t: Seq<char>| lower_of(t)));
        }
        r
    }

    /// A copy of this slot, equal to it field by field.
    pub fn copied(&self) -> (r: Slot)
        ensures
            r == *self,
    {
        Slot {
            date: SlotDate { start: self.date.start.clone() },
            config: SlotConfig {
                slot_type: self.config.slot_type.clone(),
                token: self.config.token.clone(),
            },
        }
    }
}

/// Empty time and type filters accept every slot.
pub proof fn lemma_empty_filters_match_all(slot: Slot)
    ensures
        slot.spec_matches(Seq::empty(), Seq::empty()),
{
    assert(views(Seq::<String>::empty()).len() == 0);
}

/// The type comparison ignores case: two slots with the same start whose type
/// labels fold to the same text are accepted by exactly the same filters.
pub proof fn lemma_type_match_ignores_case(a: Slot, b: Slot, times: Seq<String>, types: Seq<String>)
    requires
        a.date.start@ == b.date.start@,
        lower_of(a.config.slot_type@) == lower_of(b.config.slot_type@),
    ensures
        a.spec_matches(times, types) == b.spec_matches(times, types),
{
}

/// The time comparison is exact: under a non-empty time filter, an accepted
/// slot's time-of-day part equals one desired time character for character.
pub proof fn lemma_time_match_exact(slot: Slot, times: Seq<String>, types: Seq<String>)
    requires
        times.len() > 0,
        slot.spec_matches(times, types),
    ensures
        exists|i: int| 0 <= i < times.len() && #[trigger] times[i]@ == time_of_day(slot.date.start@),
{
    let i = choose|i: int|
        0 <= i < views(times).len() && views(times)[i] == time_of_day(slot.date.start@);
    assert(times[i]@ == views(times)[i]);
}

/// The time filter alone decides on the time-of-day part verbatim: with no type
/// filter, a slot is accepted exactly when its time-of-day part is listed.
pub proof fn lemma_time_filter_alone(slot: Slot, times: Seq<String>)
    requires
        times.len() > 0,
    ensures
        slot.spec_matches(times, Seq::empty()) <==> exists|i: int|
            0 <= i < times.len() && #[trigger] times[i]@ == time_of_day(slot.date.start@),
{
    assert(views(Seq::<String>::empty()).len() == 0);
    if exists|i: int| 0 <= i < times.len() && #[trigger] times[i]@ == time_of_day(slot.date.start@) {
        let i = choose|i: int|
            0 <= i < times.len() && #[trigger] times[i]@ == time_of_day(slot.date.start@);
        assert(views(times)[i] == times[i]@);
    }
    if slot.spec_matches(times, Seq::empty()) {
        lemma_time_match_exact(slot, times, Seq::empty());
    }
}

/// The filter decision on a slot's time-of-day part and case-folded type,
/// against desired times and case-folded desired types.
pub fn matches_folded(slot_time: &String, slot_type: &String, times: &[String], types: &[String]) -> (r:
    bool)
    ensures
        r == filters_accept(slot_time@, slot_type@, views(times@), views(types@)),
{
    let time_ok = times.len() == 0 || contains_string(times, slot_time);
    let type_ok = types.len() == 0 || contains_string(types, slot_type);
    time_ok && type_ok
}

fn contains_string(list: &[String], s: &String) -> (r: bool)
    ensures
        r == exists|i: int| 0 <= i < list@.len() && views(list@)[i] == s@,
{
    let mut i: usize = 0;
    while i < list.len()
        invariant
            i <= list@.len(),
            forall|k: int| 0 <= k < i ==> views(list@)[k] != s@,
        decreases list@.len() - i,
    {
        if list[i] == *s {
            assert(views(list@)[i as int] == list@[i as int]@);
            return true;
        }
        i = i + 1;
    }
    false
}

/// Relies on `char::is_whitespace`, which tests the Unicode `White_Space` property.
#[verifier::external_body]
fn white_space(c: char) -> (r: bool)
    ensures
        r == is_white_space(c),
{
    c.is_whitespace()
}

/// Relies on `str::to_lowercase`: the result depends on the characters alone.
#[verifier::external_body]
fn lowercase(s: &str) -> (r: String)
    ensures
        r@ == lower_of(s@),
{
    s.to_lowercase()
}

fn skip_space_from(s: &str, len: usize, i: usize) -> (r: usize)
    requires
        len == s@.len(),
        i <= len,
    ensures
        r as int == skip_space(s@, i as int),
        i <= r <= len,
{
    let mut j = i;
    while j < len && white_space(s.get_char(j))
        invariant
            i <= j <= len,
            len == s@.len(),
            skip_space(s@, j as int) == skip_space(s@, i as int),
        decreases len - j,
    {
        j = j + 1;
    }
    j
}

fn skip_word_from(s: &str, len: usize, i: usize) -> (r: usize)
    requires
        len == s@.len(),
        i <= len,
    ensures
        r as int == skip_word(s@, i as int),
        i <= r <= len,
{
    let mut j = i;
    while j < len && !white_space(s.get_char(j))
        invariant
            i <= j <= len,
            len == s@.len(),
            skip_word(s@, j as int) == skip_word(s@, i as int),
        decreases len - j,
    {
        j = j + 1;
    }
    j
}

/// The time-of-day part of a slot's start timestamp.
pub fn time_of_day_of(start: &str) -> (r: String)
    ensures
        r@ == time_of_day(start@),
{
    let len = start.unicode_len();
    let a = skip_space_from(start, len, 0);
    let b = skip_word_from(start, len, a);
    let c = skip_space_from(start, len, b);
    let d = skip_word_from(start, len, c);
    String::from_str(start.substring_char(c, d))
}

} // verus!
