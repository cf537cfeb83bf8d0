//! Access tokens: getting a new one, keeping it, and noticing that one is not
//! accepted any more.
use crate::api::{is_success, reports_success, ApiError};
use crate::config::{host_of, Config};
use crate::text::{
    begins_with, contains_text, enclosed, join_lines, joined_lines, law_beginning_is_followed,
    law_found_text_stands_in_between, lemma_lines_have_no_feed, lemma_lines_of_joined, lines_of,
    occurs_in, split_lines, starts_with, texts, without_return,
};
use vstd::prelude::*;
use vstd::string::*;
use vstd::utf8::*;

verus! {

/// One error of an answer.
#[allow(non_snake_case)]
#[derive(Clone, Copy, Debug, PartialEq, Eq, Structural)]
pub struct ErrorItem {
    pub errorId: Option<i64>,
}

/// The errors of an answer, as far as it lists any.
#[derive(Debug, PartialEq, Eq)]
pub struct ErrorBody {
    pub errors: Option<Vec<ErrorItem>>,
}

/// The number of the error for a token that is not accepted.
pub const INVALID_TOKEN_ERROR: i64 = 1001;

/// Whether an answer reports that the access token is not accepted. `parsed`
/// is the answer read as a list of errors, if it can be read so.
pub open spec fn reports_invalid_token(parsed: Option<ErrorBody>, body: Seq<char>) -> bool {
    match parsed {
        Some(ErrorBody { errors: Some(list) }) => exists|i: int|
            0 <= i < list@.len() && (#[trigger] list@[i]).errorId == Some(INVALID_TOKEN_ERROR),
        _ => occurs_in(body, "Invalid access token"@),
    }
}

fn lists_error(list: &Vec<ErrorItem>, id: i64) -> (r: bool)
    ensures
        r == exists|i: int| 0 <= i < list@.len() && (#[trigger] list@[i]).errorId == Some(id),
{
    let mut i: usize = 0;
    while i < list.len()
        invariant
            i <= list@.len(),
            forall|k: int| 0 <= k < i ==> (#[trigger] list@[k]).errorId != Some(id),
        decreases list.len() - i,
    {
        if let Some(found) = list[i].errorId {
            if found == id {
                return true;
            }
        }
        i += 1;
    }
    false
}

/// Whether an answer reports that the access token is not accepted: by the
/// number among its errors where it lists errors, and by its words otherwise.
/// `parsed` is the answer read as a list of errors, if it can be read so.
pub fn body_has_error_1001(parsed: &Option<ErrorBody>, body: &str) -> (r: bool)
    ensures
        r == reports_invalid_token(*parsed, body@),
{
    if let Some(wrapped) = parsed {
        if let Some(list) = &wrapped.errors {
            return lists_error(list, INVALID_TOKEN_ERROR);
        }
    }
    contains_text(body, "Invalid access token")
}

/// Whether an answer calls for a new access token.
pub fn needs_new_token(status: u16, parsed: &Option<ErrorBody>, body: &str) -> (r: bool)
    ensures
        r == (status == 401 && reports_invalid_token(*parsed, body@)),
{
    status == 401 && body_has_error_1001(parsed, body)
}

/// A request for a new access token: its address, and the fields of its form.
#[derive(Debug, PartialEq, Eq)]
pub struct TokenRequest {
    pub url: String,
    pub form: Vec<(String, String)>,
}

/// The address of the identity service.
pub open spec fn token_url(host: Seq<char>) -> Seq<char> {
    "https://"@ + host + "/identity/v1/oauth2/token"@
}

/// The request that exchanges a refresh token for a new access token.
pub fn refresh_access_token(cfg: &Config, refresh_token: &str) -> (r: TokenRequest)
    ensures
        r.url@ == token_url(host_of(cfg.env)),
        r.form@.len() == 2,
        r.form@[0].0@ == "grant_type"@,
        r.form@[0].1@ == "refresh_token"@,
        r.form@[1].0@ == "refresh_token"@,
        r.form@[1].1@ == refresh_token@,
{
    let url: String = enclosed("https://", cfg.identity_host(), "/identity/v1/oauth2/token");
    let mut form: Vec<(String, String)> = Vec::new();
    form.push(("grant_type".to_owned(), "refresh_token".to_owned()));
    form.push(("refresh_token".to_owned(), refresh_token.to_owned()));
    TokenRequest { url, form }
}

/// The text of the answer to a token request, where it reports success.
pub fn token_reply(status: u16, text: String) -> (r: Result<String, ApiError>)
    ensures
        r == (if reports_success(status) {
            Ok(text)
        } else {
            Err(ApiError::Http { status, body: text })
        }),
{
    if is_success(status) {
        Ok(text)
    } else {
        Err(ApiError::Http { status, body: text })
    }
}

/// The line of a settings file that holds an access token.
pub open spec fn token_line(token: Seq<char>) -> Seq<char> {
    "EBAY_ACCESS_TOKEN='"@ + token + "'"@
}

/// Whether a line of a settings file holds the access token.
pub open spec fn is_token_line(line: Seq<char>) -> bool {
    begins_with(line, "EBAY_ACCESS_TOKEN="@)
}

/// The position of the first line from `from` on that holds the access token,
/// or the number of lines.
pub open spec fn token_line_at(lines: Seq<Seq<char>>, from: int) -> int
    decreases lines.len() - from,
{
    if from >= lines.len() {
        lines.len() as int
    } else if is_token_line(lines[from]) {
        from
    } else {
        token_line_at(lines, from + 1)
    }
}

/// The lines of a settings file with another access token: the first line that
/// holds one is replaced.
pub open spec fn with_token(lines: Seq<Seq<char>>, token: Seq<char>) -> Seq<Seq<char>> {
    if token_line_at(lines, 0) < lines.len() {
        lines.update(token_line_at(lines, 0), token_line(token))
    } else {
        lines
    }
}

/// A settings file with another access token. Lines end with a line feed
/// afterwards, but for the last.
pub open spec fn settings_with_token(content: Seq<char>, token: Seq<char>) -> Seq<char> {
    joined_lines(with_token(lines_of(content), token))
}

/// Puts another access token into the text of a settings file.
pub fn update_env_access_token(content: &str, new_token: &str) -> (r: String)
    ensures
        r@ == settings_with_token(content@, new_token@),
{
    let mut lines: Vec<String> = split_lines(content);
    let mut i: usize = 0;
    while i < lines.len()
        invariant
            i <= lines@.len(),
            texts(lines@) == lines_of(content@),
            token_line_at(texts(lines@), 0) == token_line_at(texts(lines@), i as int),
        decreases lines.len() - i,
    {
        if starts_with(lines[i].as_str(), "EBAY_ACCESS_TOKEN=") {
            let ghost before = texts(lines@);
            lines.set(i, enclosed("EBAY_ACCESS_TOKEN='", new_token, "'"));
            proof {
                assert(texts(lines@) =~= before.update(i as int, token_line(new_token@)));
            }
            return join_lines(&lines);
        }
        i += 1;
    }
    join_lines(&lines)
}

proof fn lemma_token_line_at(lines: Seq<Seq<char>>, from: int)
    requires
        0 <= from <= lines.len(),
    ensures
        from <= token_line_at(lines, from) <= lines.len(),
        token_line_at(lines, from) < lines.len() ==> is_token_line(
            lines[token_line_at(lines, from)],
        ),
        forall|k: int|
            from <= k < token_line_at(lines, from) ==> !is_token_line(#[trigger] lines[k]),
    decreases lines.len() - from,
{
    if from < lines.len() && !is_token_line(lines[from]) {
        lemma_token_line_at(lines, from + 1);
    }
}

proof fn lemma_token_line_holds_token(token: Seq<char>)
    ensures
        is_token_line(token_line(token)),
{
    reveal_strlit("EBAY_ACCESS_TOKEN=");
    reveal_strlit("EBAY_ACCESS_TOKEN='");
    let prefix = "EBAY_ACCESS_TOKEN="@;
    assert(token_line(token).subrange(0, prefix.len() as int) =~= prefix);
}

/// A new access token takes the place of the old one: the first line that held
/// a token holds the new one, and every other line stays as it is.
pub proof fn law_new_token_replaces_old_one(lines: Seq<Seq<char>>, token: Seq<char>)
    requires
        token_line_at(lines, 0) < lines.len(),
    ensures
        with_token(lines, token).len() == lines.len(),
        token_line_at(with_token(lines, token), 0) == token_line_at(lines, 0),
        with_token(lines, token)[token_line_at(lines, 0)] == token_line(token),
        forall|k: int|
            0 <= k < lines.len() && k != token_line_at(lines, 0) ==> #[trigger] with_token(
                lines,
                token,
            )[k] == lines[k],
{
    let at = token_line_at(lines, 0);
    let updated = with_token(lines, token);
    lemma_token_line_at(lines, 0);
    lemma_token_line_holds_token(token);
    lemma_token_line_at(updated, 0);
    let found = token_line_at(updated, 0);
    assert(updated[at] == token_line(token));
    if found < at {
        assert(updated[found] == lines[found]);
    }
}

/// A settings file without a line for the token keeps its lines.
pub proof fn law_settings_without_token_are_kept(lines: Seq<Seq<char>>, token: Seq<char>)
    requires
        forall|k: int| 0 <= k < lines.len() ==> !is_token_line(#[trigger] lines[k]),
    ensures
        with_token(lines, token) == lines,
{
    lemma_token_line_at(lines, 0);
}

/// Of two new access tokens the later one counts, as if the earlier one had
/// never been put in.
pub proof fn law_last_token_counts(
    lines: Seq<Seq<char>>,
    first: Seq<char>,
    second: Seq<char>,
)
    ensures
        with_token(with_token(lines, first), second) == with_token(lines, second),
{
    lemma_token_line_at(lines, 0);
    if token_line_at(lines, 0) < lines.len() {
        law_new_token_replaces_old_one(lines, first);
        assert(with_token(with_token(lines, first), second) =~= with_token(lines, second));
    }
}

/// What a settings file with a new access token reads as: its lines, with the
/// token in place. Lines that a line feed cannot bound are left out: one that
/// ends with a carriage return before another line, and an empty last line.
pub proof fn law_settings_read_back(content: Seq<char>, token: Seq<char>)
    requires
        token_line_at(lines_of(content), 0) < lines_of(content).len() ==> !token.contains('\n'),
        forall|k: int|
            0 <= k < lines_of(content).len() - 1 ==> without_return(
                #[trigger] with_token(lines_of(content), token)[k],
            ) == with_token(lines_of(content), token)[k],
        lines_of(content).len() > 0 ==> with_token(lines_of(content), token).last().len() > 0,
    ensures
        lines_of(settings_with_token(content, token)) == with_token(lines_of(content), token),
{
    let lines = lines_of(content);
    let updated = with_token(lines, token);
    lemma_lines_have_no_feed(content, 0);
    lemma_token_line_at(lines, 0);
    assert forall|k: int| 0 <= k < updated.len() implies !(#[trigger] updated[k]).contains(
        '\n',
    ) by {
        if k == token_line_at(lines, 0) {
            assert(updated[k] == token_line(token));
            reveal_strlit("EBAY_ACCESS_TOKEN='");
            reveal_strlit("'");
            let line = token_line(token);
            let head = "EBAY_ACCESS_TOKEN='"@;
            assert forall|i: int| 0 <= i < line.len() implies line[i] != '\n' by {
                if i >= head.len() && i < head.len() + token.len() {
                    assert(line[i] == token[i - head.len()]);
                    assert(token.contains(token[i - head.len()]));
                }
            }
        } else {
            assert(updated[k] == lines[k]);
        }
    }
    lemma_lines_of_joined(updated);
}

/// An access token with its middle left out: the first and the last ten bytes
/// where it has more than twenty.
pub open spec fn masked(token: Seq<char>) -> Seq<char> {
    let bytes = encode_utf8(token);
    if bytes.len() <= 20 {
        token
    } else {
        decode_utf8(bytes.take(10)) + "..."@ + decode_utf8(bytes.skip(bytes.len() - 10))
    }
}

/// Whether the middle of an access token can be left out without cutting a
/// character.
pub open spec fn can_mask(token: Seq<char>) -> bool {
    let bytes = encode_utf8(token);
    bytes.len() > 20 ==> is_char_boundary(bytes, 10) && is_char_boundary(bytes, bytes.len() - 10)
}

/// Whether the middle of an access token can be left out without cutting a
/// character.
pub fn can_mask_token(token: &str) -> (r: bool)
    ensures
        r == can_mask(token@),
{
    let size: usize = token.as_bytes().len();
    size <= 20 || (token.is_char_boundary(10) && token.is_char_boundary(size - 10))
}

/// An access token with its middle left out.
pub fn masked_token(token: &str) -> (r: String)
    requires
        can_mask(token@),
    ensures
        r@ == masked(token@),
{
    let size: usize = token.as_bytes().len();
    if size <= 20 {
        return token.to_owned();
    }
    let (head, _rest) = token.split_at(10);
    let (_start, tail) = token.split_at(size - 10);
    proof {
        encode_utf8_decode_utf8(head@);
        encode_utf8_decode_utf8(tail@);
        let bytes = encode_utf8(token@);
        assert(bytes.take(10) =~= bytes.subrange(0, 10));
        assert(bytes.skip(size - 10) =~= bytes.subrange(size - 10, size as int));
    }
    enclosed(head, "...", tail)
}

/// A new access token stands whole between the quotes of the first line that
/// held a token, however long it is. The lines before and behind it stay.
pub proof fn law_whole_token_is_stored(
    content: Seq<char>,
    front: Seq<Seq<char>>,
    old_value: Seq<char>,
    behind: Seq<Seq<char>>,
    token: Seq<char>,
)
    requires
        lines_of(content) == front + seq!["EBAY_ACCESS_TOKEN="@ + old_value] + behind,
        forall|k: int|
            0 <= k < front.len() ==> !begins_with(#[trigger] front[k], "EBAY_ACCESS_TOKEN="@),
    ensures
        settings_with_token(content, token) == joined_lines(
            front + seq!["EBAY_ACCESS_TOKEN='"@ + token + "'"@] + behind,
        ),
{
    let lines = lines_of(content);
    let at = front.len() as int;
    let found = token_line_at(lines, 0);
    lemma_token_line_at(lines, 0);
    assert(lines[at] == "EBAY_ACCESS_TOKEN="@ + old_value);
    law_beginning_is_followed(lines[at], "EBAY_ACCESS_TOKEN="@);
    if found > at {
        assert(is_token_line(lines[at]));
    }
    if found < at {
        assert(lines[found] == front[found]);
    }
    assert(with_token(lines, token) =~= front + seq!["EBAY_ACCESS_TOKEN='"@ + token + "'"@]
        + behind);
}

/// Settings without a line for the token keep their lines.
pub proof fn law_other_settings_are_kept(content: Seq<char>, token: Seq<char>)
    requires
        forall|k: int|
            0 <= k < lines_of(content).len() ==> !begins_with(
                #[trigger] lines_of(content)[k],
                "EBAY_ACCESS_TOKEN="@,
            ),
    ensures
        settings_with_token(content, token) == joined_lines(lines_of(content)),
{
    lemma_token_line_at(lines_of(content), 0);
}

/// An answer that lists errors reports an unaccepted token exactly where one of
/// them has the number 1001, whatever its words; an answer that lists none,
/// where its words say so.
pub proof fn law_error_1001_or_its_words_report_the_token(
    list: Vec<ErrorItem>,
    body: Seq<char>,
    before: Seq<char>,
    after: Seq<char>,
)
    ensures
        reports_invalid_token(Some(ErrorBody { errors: Some(list) }), body) <==> exists|i: int|
            0 <= i < list@.len() && (#[trigger] list@[i]).errorId == Some(1001i64),
        reports_invalid_token(None, before + "Invalid access token"@ + after),
        reports_invalid_token(
            Some(ErrorBody { errors: None }),
            before + "Invalid access token"@ + after,
        ),
        !occurs_in(body, "Invalid access token"@) ==> !reports_invalid_token(None, body)
            && !reports_invalid_token(Some(ErrorBody { errors: None }), body),
{
    law_found_text_stands_in_between(
        before + "Invalid access token"@ + after,
        "Invalid access token"@,
    );
}

/// Tokens are renewed at the identity service of the host.
pub proof fn law_token_is_renewed_at_the_host(host: Seq<char>)
    ensures
        token_url(host) == "https://"@ + host + "/identity/v1/oauth2/token"@,
{
}

/// A token of at most twenty bytes is shown whole. Of a longer one the first
/// and the last ten bytes are shown, with three dots for what lies between,
/// where those end and begin with whole characters.
pub proof fn law_middle_of_a_long_token_is_left_out(
    head: Seq<char>,
    middle: Seq<char>,
    tail: Seq<char>,
    token: Seq<char>,
)
    requires
        encode_utf8(head).len() == 10,
        encode_utf8(middle).len() > 0,
        encode_utf8(tail).len() == 10,
    ensures
        can_mask(head + middle + tail),
        masked(head + middle + tail) == head + "..."@ + tail,
        encode_utf8(token).len() <= 20 ==> can_mask(token) && masked(token) == token,
{
    let whole = head + middle + tail;
    let bytes = encode_utf8(whole);
    lemma_encode_joined(head, middle);
    lemma_encode_joined(head + middle, tail);
    assert(whole =~= head + (middle + tail));
    lemma_encode_joined(head, middle + tail);
    lemma_joint_is_boundary(head, middle + tail);
    lemma_joint_is_boundary(head + middle, tail);
    assert(bytes.take(10) =~= encode_utf8(head));
    assert(bytes.skip(bytes.len() - 10) =~= encode_utf8(tail));
    encode_utf8_decode_utf8(head);
    encode_utf8_decode_utf8(tail);
}

proof fn lemma_encode_joined(a: Seq<char>, b: Seq<char>)
    ensures
        encode_utf8(a + b) == encode_utf8(a) + encode_utf8(b),
    decreases a.len(),
{
    if a.len() == 0 {
        assert(a + b =~= b);
    } else {
        lemma_encode_joined(a.drop_first(), b);
        assert((a + b).drop_first() =~= a.drop_first() + b);
    }
}

proof fn lemma_joint_is_boundary(a: Seq<char>, b: Seq<char>)
    ensures
        is_char_boundary(encode_utf8(a + b), encode_utf8(a).len() as int),
    decreases a.len(),
{
    encode_utf8_valid_utf8(a + b);
    if a.len() > 0 {
        lemma_encode_joined(a, b);
        lemma_joint_is_boundary(a.drop_first(), b);
        encode_utf8_first_scalar(a + b);
        assert((a + b).drop_first() =~= a.drop_first() + b);
        assert((a + b)[0] == a[0]);
        let size = encode_scalar(a[0] as u32).len() as int;
        assert(pop_first_scalar(encode_utf8(a + b)) =~= encode_utf8(a.drop_first() + b));
        assert(encode_utf8(a).len() == size + encode_utf8(a.drop_first()).len());
    }
}

} // verus!
