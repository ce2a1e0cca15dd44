//! The platform configuration, and the rewriting of its stored text when the
//! provider rotates the refresh token.

use vstd::prelude::*;
use vstd::utf8::encode_utf8;
use crate::spotify_api::{Rotation, SpotifyApi};
use crate::spotify_platform::REFRESH_RATE;

verus! {

/// Seconds that a fade-in lasts where the configuration names none: fading is disabled.
pub const FADE_SECONDS: u32 = 0;

/// Represents the platform configuration as the host stores it.
#[derive(Debug)]
pub struct Config {
    /// API client id
    pub client_id: String,
    /// API client secret
    pub client_secret: String,
    /// Cached refresh token for the API
    pub refresh_token: String,
    /// Device refresh rate, in milliseconds
    pub refresh_rate: Option<u32>,
    /// The one device to present, where the user named one
    pub device_id: Option<String>,
    /// Duration of the fade-in on power-on, in seconds
    pub fade_seconds: Option<u32>,
}

impl Config {
    /// The interval between two reconciliation ticks, in milliseconds:
    /// `REFRESH_RATE` where the configuration names none.
    pub fn refresh_rate(&self) -> (rate: u32)
        ensures
            rate == match self.refresh_rate {
                Some(configured) => configured,
                None => REFRESH_RATE,
            },
    {
        match self.refresh_rate {
            Some(configured) => configured,
            None => REFRESH_RATE,
        }
    }

    /// The duration of the fade-in on power-on, in seconds: `FADE_SECONDS`
    /// where the configuration names none.
    pub fn fade_seconds(&self) -> (seconds: u32)
        ensures
            seconds == match self.fade_seconds {
                Some(configured) => configured,
                None => FADE_SECONDS,
            },
    {
        match self.fade_seconds {
            Some(configured) => configured,
            None => FADE_SECONDS,
        }
    }

    /// A credential cache for the configured client, which holds no access token yet.
    pub fn api(&self) -> (api: SpotifyApi)
        ensures
            api@.client_id == self.client_id@,
            api@.client_secret == self.client_secret@,
            api@.refresh_token == self.refresh_token@,
            api@.access_token == Seq::<char>::empty(),
            api@.issued_at.is_none(),
            !api@.refreshing,
    {
        SpotifyApi::new(self.client_id.clone(), self.client_secret.clone(), self.refresh_token.clone())
    }

    /// Take over a rotated refresh token. Nothing else changes.
    pub fn rotate(&mut self, rotation: &Rotation)
        ensures
            final(self).refresh_token@ == rotation.new_refresh_token@,
            final(self).client_id == old(self).client_id,
            final(self).client_secret == old(self).client_secret,
            final(self).refresh_rate == old(self).refresh_rate,
            final(self).device_id == old(self).device_id,
            final(self).fade_seconds == old(self).fade_seconds,
    {
        self.refresh_token = rotation.new_refresh_token.clone();
    }
}

/// The name of the field that holds the refresh token, as it stands in the
/// stored text: `"refresh_token"`, quotes included.
pub open spec fn field_key() -> Seq<u8> {
    seq![
        0x22u8, 0x72u8, 0x65u8, 0x66u8, 0x72u8, 0x65u8, 0x73u8, 0x68u8, 0x5fu8, 0x74u8, 0x6fu8, 0x6bu8,
        0x65u8, 0x6eu8, 0x22u8,
    ]
}

/// Whether a byte is white space between the tokens of the stored text: a
/// space, a tab, a line feed or a carriage return.
pub open spec fn is_blank(byte: u8) -> bool {
    byte == 0x20 || byte == 0x09 || byte == 0x0a || byte == 0x0d
}

/// The first place at or after `from` that holds no white space; the end of the
/// text where only white space follows.
pub open spec fn skip_blanks(text: Seq<u8>, from: int) -> int
    decreases text.len() - from,
{
    if 0 <= from < text.len() && is_blank(text[from]) {
        skip_blanks(text, from + 1)
    } else {
        from
    }
}

/// The place of the quote that closes a string whose content begins at `from`. A
/// backslash takes the byte after it along, so that an escaped quote closes
/// nothing. There is none where the text ends first.
pub open spec fn string_end(text: Seq<u8>, from: int) -> Option<int>
    decreases text.len() - from,
{
    if from < 0 || from >= text.len() {
        None
    } else if text[from] == 0x22 {
        Some(from)
    } else if text[from] == 0x5c {
        if from + 1 < text.len() {
            string_end(text, from + 2)
        } else {
            None
        }
    } else {
        string_end(text, from + 1)
    }
}

/// Where the content of the field's value begins, if the field begins at `at`:
/// the key, a colon and an opening quote, with any white space between them.
pub open spec fn value_start(text: Seq<u8>, at: int) -> Option<int> {
    let key = field_key();
    if 0 <= at && at + key.len() <= text.len() && text.subrange(at, at + key.len()) == key {
        let colon = skip_blanks(text, at + key.len());
        if colon < text.len() && text[colon] == 0x3a {
            let quote = skip_blanks(text, colon + 1);
            if quote < text.len() && text[quote] == 0x22 {
                Some(quote + 1)
            } else {
                None
            }
        } else {
            None
        }
    } else {
        None
    }
}

/// Where the content of the value of the first field at or after `from` begins.
pub open spec fn first_field(text: Seq<u8>, from: int) -> Option<int>
    decreases text.len() - from,
{
    if from < 0 || from >= text.len() {
        None
    } else if value_start(text, from) is Some {
        value_start(text, from)
    } else {
        first_field(text, from + 1)
    }
}

/// The extent of the refresh token in the stored text: where the content of the
/// field's value begins, and where the quote stands that closes it. There is none
/// where the text holds no such field, or its value is not closed.
pub open spec fn refresh_token_value(text: Seq<u8>) -> Option<(int, int)> {
    match first_field(text, 0) {
        Some(start) => match string_end(text, start) {
            Some(end) => Some((start, end)),
            None => None,
        },
        None => None,
    }
}

/// The stored text with `token` as the value of the refresh-token field: the text
/// up to the value, the token, and the text after the value.
pub open spec fn rewritten(text: Seq<u8>, token: Seq<u8>) -> Option<Seq<u8>> {
    match refresh_token_value(text) {
        Some((start, end)) => Some(text.take(start) + token + text.skip(end)),
        None => None,
    }
}

/// The bytes of an optional buffer.
pub open spec fn bytes_of(buffer: Option<Vec<u8>>) -> Option<Seq<u8>> {
    match buffer {
        Some(bytes) => Some(bytes@),
        None => None,
    }
}

proof fn lemma_skip_blanks_bounds(text: Seq<u8>, from: int)
    requires
        0 <= from <= text.len(),
    ensures
        from <= skip_blanks(text, from) <= text.len(),
    decreases text.len() - from,
{
    if from < text.len() && is_blank(text[from]) {
        lemma_skip_blanks_bounds(text, from + 1);
    }
}

proof fn lemma_string_end_bounds(text: Seq<u8>, from: int)
    requires
        0 <= from,
    ensures
        string_end(text, from) matches Some(end) ==> from <= end < text.len() && text[end] == 0x22,
    decreases text.len() - from,
{
    if from < text.len() && text[from] != 0x22 {
        if text[from] == 0x5c {
            if from + 1 < text.len() {
                lemma_string_end_bounds(text, from + 2);
            }
        } else {
            lemma_string_end_bounds(text, from + 1);
        }
    }
}

proof fn lemma_first_field_bounds(text: Seq<u8>, from: int)
    requires
        0 <= from,
    ensures
        first_field(text, from) matches Some(start) ==> from + field_key().len() + 2 <= start <= text.len()
            && text[start - 1] == 0x22,
    decreases text.len() - from,
{
    if from < text.len() {
        if value_start(text, from) is Some {
            let colon = skip_blanks(text, from + field_key().len());
            lemma_skip_blanks_bounds(text, from + field_key().len());
            lemma_skip_blanks_bounds(text, colon + 1);
        } else {
            lemma_first_field_bounds(text, from + 1);
        }
    }
}

/// The value that is rewritten stands between two quotes of the stored text, and
/// the rewritten text keeps every byte outside of them: it differs from the stored
/// text in the value of the field alone.
pub proof fn lemma_rewrite_in_place(text: Seq<u8>, token: Seq<u8>)
    requires
        refresh_token_value(text) is Some,
    ensures
        ({
            let (start, end) = refresh_token_value(text).unwrap();
            let after = rewritten(text, token).unwrap();
            &&& 0 < start <= end < text.len()
            &&& text[start - 1] == 0x22
            &&& text[end] == 0x22
            &&& after.len() == text.len() - (end - start) + token.len()
            &&& after.take(start) == text.take(start)
            &&& after.subrange(start, start + token.len()) == token
            &&& after.skip(start + token.len()) == text.skip(end)
        }),
{
    lemma_first_field_bounds(text, 0);
    lemma_string_end_bounds(text, first_field(text, 0).unwrap());
}

/// Whether a token can stand between quotes as it is: it holds neither a quote
/// nor a backslash.
pub open spec fn is_plain(token: Seq<u8>) -> bool {
    forall|i: int| 0 <= i < token.len() ==> #[trigger] token[i] != 0x22 && token[i] != 0x5c
}

proof fn lemma_blanks_skipped(text: Seq<u8>, from: int, place: int)
    requires
        0 <= from <= place < skip_blanks(text, from),
    ensures
        place < text.len(),
        is_blank(text[place]),
    decreases text.len() - from,
{
    if from < text.len() && is_blank(text[from]) {
        if place > from {
            lemma_blanks_skipped(text, from + 1, place);
        }
    }
}

/// Skipping white space looks at no byte beyond the place where it stops.
proof fn lemma_skip_blanks_local(a: Seq<u8>, b: Seq<u8>, from: int, same: int)
    requires
        0 <= from,
        same <= a.len(),
        same <= b.len(),
        forall|i: int| 0 <= i < same ==> a[i] == b[i],
        skip_blanks(a, from) < same,
    ensures
        skip_blanks(b, from) == skip_blanks(a, from),
    decreases a.len() - from,
{
    if from < a.len() && is_blank(a[from]) {
        lemma_skip_blanks_bounds(a, from + 1);
        lemma_skip_blanks_local(a, b, from + 1, same);
    }
}

/// That a field begins at a place depends on no byte beyond the quote that opens its value.
proof fn lemma_value_start_local(a: Seq<u8>, b: Seq<u8>, at: int, same: int)
    requires
        same <= a.len(),
        same <= b.len(),
        forall|i: int| 0 <= i < same ==> a[i] == b[i],
        value_start(a, at) matches Some(start) && start <= same,
    ensures
        value_start(b, at) == value_start(a, at),
{
    let key = field_key();
    let colon = skip_blanks(a, at + key.len());
    let quote = skip_blanks(a, colon + 1);
    lemma_skip_blanks_bounds(a, at + key.len());
    lemma_skip_blanks_bounds(a, colon + 1);
    assert(b.subrange(at, at + key.len()) =~= a.subrange(at, at + key.len()));
    lemma_skip_blanks_local(a, b, at + key.len(), same);
    lemma_skip_blanks_local(a, b, colon + 1, same);
}

proof fn lemma_first_field_witness(text: Seq<u8>, from: int) -> (at: int)
    requires
        0 <= from,
        first_field(text, from) is Some,
    ensures
        from <= at < text.len(),
        value_start(text, at) == first_field(text, from),
        forall|j: int| from <= j < at ==> (#[trigger] value_start(text, j)).is_none(),
    decreases text.len() - from,
{
    if value_start(text, from) is Some {
        from
    } else {
        lemma_first_field_witness(text, from + 1)
    }
}

proof fn lemma_first_field_from_witness(text: Seq<u8>, from: int, at: int)
    requires
        0 <= from <= at < text.len(),
        value_start(text, at) is Some,
        forall|j: int| from <= j < at ==> (#[trigger] value_start(text, j)).is_none(),
    ensures
        first_field(text, from) == value_start(text, at),
    decreases at - from,
{
    if from < at {
        assert(value_start(text, from).is_none());
        lemma_first_field_from_witness(text, from + 1, at);
    }
}

/// The name of the field opens and closes with a quote and holds none between them.
proof fn lemma_key_shape()
    ensures
        field_key().len() == 15,
        field_key()[0] == 0x22,
        field_key()[1] == 0x72,
        field_key()[14] == 0x22,
        forall|j: int| 1 <= j <= 13 ==> #[trigger] field_key()[j] != 0x22,
{
    let key = field_key();
    assert forall|j: int| 1 <= j <= 13 implies #[trigger] key[j] != 0x22 by {
        if j == 1 {
        } else if j == 2 {
        } else if j == 3 {
        } else if j == 4 {
        } else if j == 5 {
        } else if j == 6 {
        } else if j == 7 {
        } else if j == 8 {
        } else if j == 9 {
        } else if j == 10 {
        } else if j == 11 {
        } else if j == 12 {
        } else {
        }
    }
}

/// A place ahead of the field holds no field either when bytes change from the
/// field's value on: a field that began there would have to read the name of the
/// field as white space.
proof fn lemma_no_earlier_field(a: Seq<u8>, b: Seq<u8>, at: int, found: int, start: int)
    requires
        0 <= at < found,
        start <= a.len(),
        start <= b.len(),
        forall|i: int| 0 <= i < start ==> a[i] == b[i],
        value_start(a, found) == Some(start),
        value_start(a, at).is_none(),
    ensures
        value_start(b, at).is_none(),
{
    lemma_key_shape();
    let key = field_key();
    if value_start(b, at) is Some {
        let other = value_start(b, at).unwrap();
        if other <= start {
            lemma_value_start_local(b, a, at, start);
        } else {
            // the field at `found`, as `a` and `b` both hold it
            lemma_skip_blanks_bounds(a, found + key.len());
            lemma_skip_blanks_bounds(a, skip_blanks(a, found + key.len()) + 1);
            assert(a.subrange(found, found + key.len())[0] == key[0]);
            assert(a.subrange(found, found + key.len())[1] == key[1]);
            assert(b[found] == 0x22);
            assert(b[found + 1] == 0x72);
            // the field that would begin at `at` in `b`
            let colon = skip_blanks(b, at + key.len());
            let quote = skip_blanks(b, colon + 1);
            lemma_skip_blanks_bounds(b, at + key.len());
            lemma_skip_blanks_bounds(b, colon + 1);
            let place = if found >= at + key.len() {
                found
            } else {
                assert(b.subrange(at, at + key.len())[found - at] == key[found - at]);
                found + 1
            };
            assert(at + key.len() <= place < quote);
            assert(b[place] == 0x22 || b[place] == 0x72);
            if place < colon {
                lemma_blanks_skipped(b, at + key.len(), place);
            } else if place > colon {
                lemma_blanks_skipped(b, colon + 1, place);
            }
        }
    }
}

/// A string whose content holds neither quote nor backslash ends where the content ends.
proof fn lemma_string_end_plain(text: Seq<u8>, from: int, width: int)
    requires
        0 <= from,
        0 <= width,
        from + width < text.len(),
        forall|i: int| from <= i < from + width ==> #[trigger] text[i] != 0x22 && text[i] != 0x5c,
        text[from + width] == 0x22,
    ensures
        string_end(text, from) == Some(from + width),
    decreases width,
{
    if width > 0 {
        assert(text[from] != 0x22 && text[from] != 0x5c);
        lemma_string_end_plain(text, from + 1, width - 1);
    }
}

/// After a rotation the stored text holds the new refresh token as the value of the
/// field, and nothing of the old value beside it: the value found in the rewritten
/// text begins where the old one began and is the new token, byte for byte. This
/// holds for a token that can stand between quotes as it is; one with a quote or a
/// backslash in it is written as it is all the same, and is then read differently.
pub proof fn lemma_rewritten_holds_new_token(text: Seq<u8>, token: Seq<u8>)
    requires
        refresh_token_value(text) is Some,
        is_plain(token),
    ensures
        ({
            let start = refresh_token_value(text).unwrap().0;
            let after = rewritten(text, token).unwrap();
            &&& refresh_token_value(after) == Some((start, start + token.len()))
            &&& after.subrange(start, start + token.len()) == token
        }),
{
    let (start, end) = refresh_token_value(text).unwrap();
    let after = rewritten(text, token).unwrap();
    lemma_rewrite_in_place(text, token);
    let found = lemma_first_field_witness(text, 0);
    assert forall|i: int| 0 <= i < start implies text[i] == after[i] by {
        assert(after.take(start)[i] == text.take(start)[i]);
    }
    lemma_value_start_local(text, after, found, start);
    assert forall|j: int| 0 <= j < found implies (#[trigger] value_start(after, j)).is_none() by {
        assert(value_start(text, j).is_none());
        lemma_no_earlier_field(text, after, j, found, start);
    }
    lemma_first_field_from_witness(after, 0, found);
    assert forall|i: int| start <= i < start + token.len() implies #[trigger] after[i] != 0x22 && after[i]
        != 0x5c by {
        assert(after.subrange(start, start + token.len())[i - start] == token[i - start]);
    }
    assert(after[start + token.len()] == 0x22) by {
        assert(after.skip(start + token.len())[0] == text.skip(end)[0]);
    }
    lemma_string_end_plain(after, start, token.len() as int);
}

fn key_bytes() -> (key: Vec<u8>)
    ensures
        key@ == field_key(),
{
    let key: Vec<u8> = vec![
        0x22u8, 0x72u8, 0x65u8, 0x66u8, 0x72u8, 0x65u8, 0x73u8, 0x68u8, 0x5fu8, 0x74u8, 0x6fu8, 0x6bu8,
        0x65u8, 0x6eu8, 0x22u8,
    ];
    assert(key@ =~= field_key());
    key
}

fn matches_at(text: &[u8], from: &[u8], at: usize) -> (found: bool)
    requires
        at + from@.len() <= text@.len(),
    ensures
        found == (text@.subrange(at as int, at + from@.len()) == from@),
{
    let len = text.len();
    let mut k: usize = 0;
    while k < from.len()
        invariant
            k <= from@.len(),
            at + from@.len() <= text@.len() == len,
            forall|j: int| 0 <= j < k ==> text@[at + j] == from@[j],
        decreases from@.len() - k,
    {
        if text[at + k] != from[k] {
            assert(text@.subrange(at as int, at + from@.len())[k as int] != from@[k as int]);
            return false;
        }
        k += 1;
    }
    assert(text@.subrange(at as int, at + from@.len()) =~= from@);
    true
}

fn append_bytes(out: &mut Vec<u8>, part: &[u8], from: usize, to: usize)
    requires
        from <= to <= part@.len(),
    ensures
        final(out)@ == old(out)@ + part@.subrange(from as int, to as int),
{
    let mut k: usize = from;
    while k < to
        invariant
            from <= k <= to <= part@.len(),
            out@ == old(out)@ + part@.subrange(from as int, k as int),
        decreases to - k,
    {
        out.push(part[k]);
        assert(part@.subrange(from as int, k + 1) == part@.subrange(from as int, k as int).push(part@[k as int]));
        k += 1;
    }
}

fn skip_blanks_from(text: &[u8], from: usize) -> (place: usize)
    requires
        from <= text@.len(),
    ensures
        place == skip_blanks(text@, from as int),
        from <= place <= text@.len(),
{
    let mut i: usize = from;
    while i < text.len() && (text[i] == 0x20 || text[i] == 0x09 || text[i] == 0x0a || text[i] == 0x0d)
        invariant
            from <= i <= text@.len(),
            skip_blanks(text@, i as int) == skip_blanks(text@, from as int),
        decreases text@.len() - i,
    {
        i += 1;
    }
    i
}

fn find_string_end(text: &[u8], from: usize) -> (end: Option<usize>)
    requires
        from <= text@.len(),
    ensures
        match end {
            Some(place) => string_end(text@, from as int) == Some(place as int) && from <= place < text@.len(),
            None => string_end(text@, from as int).is_none(),
        },
{
    let len = text.len();
    let mut i: usize = from;
    while i < len
        invariant
            from <= i <= len == text@.len(),
            string_end(text@, i as int) == string_end(text@, from as int),
        decreases len - i,
    {
        if text[i] == 0x22 {
            return Some(i);
        }
        if text[i] == 0x5c {
            if len - i < 2 {
                return None;
            }
            i += 2;
        } else {
            i += 1;
        }
    }
    None
}

fn find_value_start(text: &[u8], key: &[u8], at: usize) -> (start: Option<usize>)
    requires
        key@ == field_key(),
        at < text@.len(),
    ensures
        match start {
            Some(place) => value_start(text@, at as int) == Some(place as int) && place <= text@.len(),
            None => value_start(text@, at as int).is_none(),
        },
{
    let len = text.len();
    if key.len() > len - at {
        return None;
    }
    if !matches_at(text, key, at) {
        return None;
    }
    let colon = skip_blanks_from(text, at + key.len());
    if colon >= len || text[colon] != 0x3a {
        return None;
    }
    let quote = skip_blanks_from(text, colon + 1);
    if quote >= len || text[quote] != 0x22 {
        return None;
    }
    Some(quote + 1)
}

fn find_first_field(text: &[u8]) -> (start: Option<usize>)
    ensures
        match start {
            Some(place) => first_field(text@, 0) == Some(place as int) && place <= text@.len(),
            None => first_field(text@, 0).is_none(),
        },
{
    let key = key_bytes();
    let mut at: usize = 0;
    while at < text.len()
        invariant
            at <= text@.len(),
            key@ == field_key(),
            first_field(text@, at as int) == first_field(text@, 0),
        decreases text@.len() - at,
    {
        match find_value_start(text, key.as_slice(), at) {
            Some(place) => {
                return Some(place);
            },
            None => {},
        }
        at += 1;
    }
    None
}

/// Rewrite the stored configuration after a rotation of the refresh token: the
/// value of the first `"refresh_token"` field gives way to the new token, whatever
/// it was, and the rest of the text, its structure and formatting, is kept byte
/// for byte. The token is written as it is. There is no result where the text
/// holds no such field with a string as its value.
pub fn rewrite_refresh_token(config: &[u8], new_token: &str) -> (rewritten_config: Option<Vec<u8>>)
    ensures
        bytes_of(rewritten_config) == rewritten(config@, encode_utf8(new_token@)),
{
    let start = match find_first_field(config) {
        Some(start) => start,
        None => {
            return None;
        },
    };
    let end = match find_string_end(config, start) {
        Some(end) => end,
        None => {
            return None;
        },
    };
    let token = new_token.as_bytes();
    let mut out: Vec<u8> = Vec::new();
    append_bytes(&mut out, config, 0, start);
    append_bytes(&mut out, token, 0, token.len());
    append_bytes(&mut out, config, end, config.len());
    proof {
        assert(config@.subrange(0, start as int) == config@.take(start as int));
        assert(config@.subrange(end as int, config@.len() as int) == config@.skip(end as int));
        assert(token@.subrange(0, token@.len() as int) == token@);
    }
    Some(out)
}

} // verus!
