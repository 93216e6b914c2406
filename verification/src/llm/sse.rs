//! Reading a streamed (server-sent events) chat completion: bytes arrive in
//! chunks that may split a UTF-8 character or a line anywhere; complete lines
//! of the form `data: {json}` carry the text deltas.
use vstd::prelude::*;
use vstd::utf8::{decode_utf8, valid_utf8};
use crate::chunks::views;
use crate::json::{entries_get, json_views, lemma_json_views, parse_json, parse_json_text, Json, JsonValue};
use crate::llm::minimax::MiniMaxError;
use crate::text::{
    chars_of, is_blank, push_chars, starts_with, starts_with_chars, string_of, sub_chars, trim,
    trim_chars,
};

verus! {

/// What `std::str::from_utf8` reports for `bytes`: the length of the longest
/// valid prefix, for an error whether it was an invalid sequence (with its
/// length) or a sequence cut short at the end, and the error's message.
pub uninterp spec fn utf8_outcome(bytes: Seq<u8>) -> (nat, Option<nat>, Seq<char>);

/// Decodes `bytes` with `std::str::from_utf8`: the longest valid prefix
/// decoded, its length, and for invalid input the error's length and message.
/// As std documents `Utf8Error`: `valid_up_to` is the largest index up to
/// which the input is valid, and `error_len` is `None` exactly when the end
/// of the input was reached inside a character, that is when some further
/// bytes would complete what follows the valid prefix; otherwise an
/// unexpected byte was met, which no further bytes can mend.
#[verifier::external_body]
fn check_utf8(bytes: &[u8]) -> (r: (usize, Option<usize>, String, String))
    ensures
        utf8_outcome(bytes@) == (r.0 as nat, match r.1 {
            Some(n) => Some(n as nat),
            None => None::<nat>,
        }, r.3@),
        r.0 <= bytes@.len(),
        valid_utf8(bytes@.take(r.0 as int)),
        forall|k: int| r.0 < k <= bytes@.len() ==> !valid_utf8(#[trigger] bytes@.take(k)),
        r.2@ == decode_utf8(bytes@.take(r.0 as int)),
        valid_utf8(bytes@) <==> r.0 == bytes@.len(),
        r.0 == bytes@.len() ==> r.1 is None,
        r.0 < bytes@.len() ==> (r.1 is None <==> exists|ext: Seq<u8>|
            #[trigger] valid_utf8(bytes@.skip(r.0 as int) + ext)),
{
    match std::str::from_utf8(bytes) {
        Ok(s) => (bytes.len(), None, s.to_string(), String::new()),
        Err(e) => (
            e.valid_up_to(),
            e.error_len(),
            std::str::from_utf8(&bytes[..e.valid_up_to()]).unwrap_or_default().to_string(),
            e.to_string(),
        ),
    }
}

/// The outcome of decoding buffered bytes: the decoded text and the bytes
/// kept back, or an error message and the bytes kept back.
pub open spec fn utf8_step(all: Seq<u8>, flush: bool) -> (Result<Seq<char>, Seq<char>>, Seq<u8>) {
    if all.len() == 0 {
        (Ok(Seq::empty()), all)
    } else if valid_utf8(all) {
        (Ok(decode_utf8(all)), Seq::empty())
    } else {
        let (v, el, msg) = utf8_outcome(all);
        let keep = all.skip(v as int);
        if el is None && !flush {
            (Ok(decode_utf8(all.take(v as int))), keep)
        } else {
            (Err(msg), keep)
        }
    }
}

/// `text` is the decoding of the bytes of `all` before the held-back tail
/// `keep`, and those bytes are valid UTF-8.
pub open spec fn decoded_prefix(all: Seq<u8>, keep: Seq<u8>, text: Seq<char>) -> bool {
    let n = all.len() - keep.len();
    &&& keep.len() <= all.len()
    &&& all.skip(n) == keep
    &&& valid_utf8(all.take(n))
    &&& text == decode_utf8(all.take(n))
}

/// Appends `chunk` to the bytes held back in `utf8_pending` and decodes the
/// longest valid prefix. A character cut short at the end stays in
/// `utf8_pending` for the next chunk unless `flush_tail` is set; an invalid
/// sequence (or a cut one when flushing) is an error.
pub fn decode_complete_utf8(chunk: &[u8], utf8_pending: &mut Vec<u8>, flush_tail: bool) -> (r: Result<String, MiniMaxError>)
    ensures
        ({
            let (res, keep) = utf8_step(old(utf8_pending)@ + chunk@, flush_tail);
            &&& final(utf8_pending)@ == keep
            &&& match r {
                Ok(s) => res == Ok::<Seq<char>, Seq<char>>(s@),
                Err(e) => e matches MiniMaxError::InvalidUtf8(m) && res == Err::<Seq<char>, Seq<char>>(m@),
            }
        }),
        r matches Ok(s) ==> decoded_prefix(old(utf8_pending)@ + chunk@, final(utf8_pending)@, s@),
        r is Err && !flush_tail ==> forall|ext: Seq<u8>|
            !#[trigger] valid_utf8(old(utf8_pending)@ + chunk@ + ext),
        r is Err && flush_tail ==> !valid_utf8(old(utf8_pending)@ + chunk@),
{
    let ghost all = old(utf8_pending)@ + chunk@;
    let mut i: usize = 0;
    while i < chunk.len()
        invariant
            i <= chunk@.len(),
            utf8_pending@ == old(utf8_pending)@ + chunk@.take(i as int),
        decreases chunk@.len() - i,
    {
        utf8_pending.push(chunk[i]);
        i = i + 1;
        assert(utf8_pending@ =~= old(utf8_pending)@ + chunk@.take(i as int));
    }
    assert(chunk@.take(i as int) =~= chunk@);
    assert(utf8_pending@ == all);
    if utf8_pending.len() == 0 {
        assert(all.skip(0) =~= all);
        assert(all.take(0) =~= Seq::<u8>::empty());
        return Ok(String::new());
    }
    let (valid_up_to, error_len, decoded, message) = check_utf8(utf8_pending.as_slice());
    if valid_up_to == utf8_pending.len() {
        assert(all.take(all.len() as int) =~= all);
        assert(all.skip(all.len() as int) =~= Seq::<u8>::empty());
        utf8_pending.clear();
        return Ok(decoded);
    }
    let mut keep: Vec<u8> = Vec::new();
    let mut k: usize = valid_up_to;
    while k < utf8_pending.len()
        invariant
            valid_up_to <= k <= utf8_pending@.len(),
            utf8_pending@ == all,
            keep@ == all.subrange(valid_up_to as int, k as int),
        decreases utf8_pending@.len() - k,
    {
        keep.push(utf8_pending[k]);
        k = k + 1;
        assert(keep@ =~= all.subrange(valid_up_to as int, k as int));
    }
    assert(keep@ =~= all.skip(valid_up_to as int));
    *utf8_pending = keep;
    proof {
        if error_len is Some {
            assert forall|ext: Seq<u8>| !#[trigger] valid_utf8(all + ext) by {
                let head = all.take(valid_up_to as int);
                let tail = all.skip(valid_up_to as int) + ext;
                assert(all + ext =~= head + tail);
                if valid_utf8(all + ext) {
                    lemma_valid_suffix(head, tail);
                }
            }
        }
    }
    match error_len {
        None => {
            if !flush_tail {
                return Ok(decoded);
            }
            Err(MiniMaxError::InvalidUtf8(message))
        },
        Some(_) => Err(MiniMaxError::InvalidUtf8(message)),
    }
}

/// `s` with every leading copy of `p` removed (`str::trim_start_matches`).
pub open spec fn strip_all_prefix(s: Seq<char>, p: Seq<char>) -> Seq<char>
    decreases s.len(),
{
    if p.len() > 0 && starts_with(s, p) {
        strip_all_prefix(s.skip(p.len() as int), p)
    } else {
        s
    }
}

/// The text delta carried by one choice of a stream chunk, or `Err` when the
/// choice does not have the expected shape (`{"delta": {"content": ...}}`,
/// where a missing or null member means no text).
pub open spec fn choice_content(c: Json) -> Result<Option<Seq<char>>, ()> {
    match c {
        Json::Object(e) => match entries_get(e, "delta"@) {
            None => Ok(None),
            Some(Json::Null) => Ok(None),
            Some(Json::Object(d)) => match entries_get(d, "content"@) {
                None => Ok(None),
                Some(Json::Null) => Ok(None),
                Some(Json::Str(s)) => Ok(Some(s)),
                _ => Err(()),
            },
            _ => Err(()),
        },
        _ => Err(()),
    }
}

/// The first text delta among the choices `cs`; `Err` when any choice has
/// the wrong shape.
pub open spec fn choices_content(cs: Seq<Json>) -> Result<Option<Seq<char>>, ()>
    decreases cs.len(),
{
    if cs.len() == 0 {
        Ok(None)
    } else {
        match (choices_content(cs.drop_last()), choice_content(cs.last())) {
            (Err(_), _) => Err(()),
            (_, Err(_)) => Err(()),
            (Ok(Some(x)), _) => Ok(Some(x)),
            (Ok(None), Ok(y)) => Ok(y),
        }
    }
}

/// The text delta of a stream chunk `{"choices": [...]}`.
pub open spec fn stream_chunk_content(v: Json) -> Result<Option<Seq<char>>, ()> {
    match v {
        Json::Object(e) => match entries_get(e, "choices"@) {
            Some(Json::Array(cs)) => choices_content(cs),
            _ => Err(()),
        },
        _ => Err(()),
    }
}

/// The message for a stream chunk of the wrong shape.
pub open spec fn bad_chunk_text() -> Seq<char> {
    "stream chunk does not match the expected shape"@
}

/// What one line of a stream carries.
pub enum SseLine {
    /// Not a data line, an empty payload, or the `[DONE]` marker.
    Skip,
    /// A data line with a chunk, and the chunk's text delta if any.
    Delta(Option<Seq<char>>),
    /// A data line whose payload is not a valid chunk, with the message.
    Invalid(Seq<char>),
}

/// The meaning of one line: after trimming it must start with `data:`; the
/// payload is what follows all leading `data:` markers, trimmed.
pub open spec fn sse_line(line: Seq<char>) -> SseLine {
    let t = trim(line);
    if !starts_with(t, "data:"@) {
        SseLine::Skip
    } else {
        let payload = trim(strip_all_prefix(t, "data:"@));
        if payload.len() == 0 || payload == "[DONE]"@ {
            SseLine::Skip
        } else {
            match parse_json_text(payload) {
                Err(m) => SseLine::Invalid(m),
                Ok(v) => match stream_chunk_content(v) {
                    Err(_) => SseLine::Invalid(bad_chunk_text()),
                    Ok(d) => SseLine::Delta(d),
                },
            }
        }
    }
}

proof fn lemma_choices_step(cs: Seq<Json>, i: int)
    requires
        0 <= i < cs.len(),
    ensures
        choices_content(cs.take(i + 1)) == (match (
            choices_content(cs.take(i)),
            choice_content(cs[i]),
        ) {
            (Err(_), _) => Err(()),
            (_, Err(_)) => Err(()),
            (Ok(Some(x)), _) => Ok(Some(x)),
            (Ok(None), Ok(y)) => Ok(y),
        }),
{
    assert(cs.take(i + 1).drop_last() =~= cs.take(i));
}

proof fn lemma_choices_err_prefix(cs: Seq<Json>, i: int)
    requires
        0 <= i <= cs.len(),
        choices_content(cs.take(i)) is Err,
    ensures
        choices_content(cs) is Err,
    decreases cs.len() - i,
{
    if i < cs.len() {
        lemma_choices_step(cs, i);
        lemma_choices_err_prefix(cs, i + 1);
    } else {
        assert(cs.take(i) =~= cs);
    }
}

fn choice_delta(c: &JsonValue) -> (r: Result<Option<String>, ()>)
    ensures
        match r {
            Ok(Some(s)) => choice_content(c@) == Ok::<Option<Seq<char>>, ()>(Some(s@)),
            Ok(None) => choice_content(c@) == Ok::<Option<Seq<char>>, ()>(None),
            Err(_) => choice_content(c@) is Err,
        },
{
    proof {
        reveal_strlit("delta");
        reveal_strlit("content");
    }
    if !c.is_object() {
        return Err(());
    }
    match c.get("delta") {
        None => Ok(None),
        Some(JsonValue::Null) => Ok(None),
        Some(d) => {
            if !d.is_object() {
                return Err(());
            }
            match d.get("content") {
                None => Ok(None),
                Some(JsonValue::Null) => Ok(None),
                Some(JsonValue::Str(s)) => Ok(Some(crate::text::owned(s.as_str()))),
                Some(_) => Err(()),
            }
        },
    }
}

/// The text delta of a parsed stream chunk; `Err` for a chunk of the wrong
/// shape.
pub fn stream_chunk_delta(v: &JsonValue) -> (r: Result<Option<String>, ()>)
    ensures
        match r {
            Ok(Some(s)) => stream_chunk_content(v@) == Ok::<Option<Seq<char>>, ()>(Some(s@)),
            Ok(None) => stream_chunk_content(v@) == Ok::<Option<Seq<char>>, ()>(None),
            Err(_) => stream_chunk_content(v@) is Err,
        },
{
    proof {
        reveal_strlit("choices");
    }
    if !v.is_object() {
        return Err(());
    }
    match v.get("choices") {
        Some(JsonValue::Array(cs)) => {
            let ghost m = json_views(cs@);
            proof {
                lemma_json_views(cs@);
                assert(m.take(0) =~= Seq::<Json>::empty());
                assert(v@.get("choices"@) == Some(Json::Array(m)));
            }
            let mut found: Option<String> = None;
            let mut i: usize = 0;
            while i < cs.len()
                invariant
                    i <= cs@.len(),
                    m == json_views(cs@),
                    stream_chunk_content(v@) == choices_content(m),
                    m.len() == cs@.len(),
                    forall|k: int| 0 <= k < cs@.len() ==> #[trigger] m[k] == cs@[k]@,
                    match found {
                        Some(s) => choices_content(m.take(i as int)) == Ok::<Option<Seq<char>>, ()>(
                            Some(s@),
                        ),
                        None => choices_content(m.take(i as int)) == Ok::<Option<Seq<char>>, ()>(
                            None,
                        ),
                    },
                decreases cs@.len() - i,
            {
                let c = choice_delta(&cs[i]);
                proof {
                    lemma_choices_step(m, i as int);
                }
                match c {
                    Err(_) => {
                        proof {
                            lemma_choices_err_prefix(m, i + 1);
                        }
                        return Err(());
                    },
                    Ok(d) => {
                        if found.is_none() {
                            found = d;
                        }
                    },
                }
                i = i + 1;
            }
            assert(m.take(i as int) =~= m);
            Ok(found)
        },
        _ => Err(()),
    }
}

/// Parses one line of a stream: the text delta it carries, `None` for a line
/// that carries none, or a JSON error for a malformed data line.
pub fn parse_sse_delta_line(line: &str) -> (r: Result<Option<String>, MiniMaxError>)
    ensures
        match r {
            Ok(Some(d)) => sse_line(line@) == SseLine::Delta(Some(d@)),
            Ok(None) => sse_line(line@) == SseLine::Skip || sse_line(line@) == SseLine::Delta(None),
            Err(e) => e matches MiniMaxError::Json(m) && sse_line(line@) == SseLine::Invalid(m@),
        },
{
    proof {
        reveal_strlit("data:");
        reveal_strlit("[DONE]");
    }
    let v = chars_of(line);
    let t = trim_chars(v.as_slice());
    let marker = chars_of("data:");
    if !starts_with_chars(t.as_slice(), marker.as_slice()) {
        return Ok(None);
    }
    let mut start: usize = 0;
    assert(marker@.len() == 5);
    let ghost tv = t@;
    assert(tv.skip(0) =~= tv);
    while start <= t.len() && marker.len() <= t.len() - start && crate::text::matches_at(
        t.as_slice(),
        marker.as_slice(),
        start,
    )
        invariant
            start <= t@.len(),
            marker@ == "data:"@,
            marker@.len() == 5,
            tv == t@,
            strip_all_prefix(tv, marker@) == strip_all_prefix(tv.skip(start as int), marker@),
        decreases t@.len() - start,
    {
        let ghost rest = tv.skip(start as int);
        assert(rest.subrange(0, 5) =~= tv.subrange(start as int, start + 5));
        assert(starts_with(rest, marker@));
        assert(rest.skip(5) =~= tv.skip(start + 5));
        start = start + marker.len();
    }
    let ghost rest = tv.skip(start as int);
    assert(!starts_with(rest, marker@)) by {
        if starts_with(rest, marker@) {
            assert(rest.subrange(0, 5) =~= tv.subrange(start as int, start + 5));
        }
    }
    let mut stripped: Vec<char> = Vec::new();
    let mut k: usize = start;
    while k < t.len()
        invariant
            start <= k <= t@.len(),
            tv == t@,
            stripped@ == tv.subrange(start as int, k as int),
        decreases t@.len() - k,
    {
        stripped.push(t[k]);
        k = k + 1;
        assert(stripped@ =~= tv.subrange(start as int, k as int));
    }
    assert(stripped@ =~= rest);
    let payload = trim_chars(stripped.as_slice());
    let done = chars_of("[DONE]");
    if payload.len() == 0 || crate::text::seq_eq(payload.as_slice(), done.as_slice()) {
        return Ok(None);
    }
    let text = string_of(payload.as_slice());
    match parse_json(text.as_str()) {
        Err(m) => Err(MiniMaxError::Json(m)),
        Ok(j) => match stream_chunk_delta(&j) {
            Err(_) => Err(
                MiniMaxError::Json(crate::text::owned("stream chunk does not match the expected shape")),
            ),
            Ok(d) => Ok(d),
        },
    }
}

/// The index of the first line feed in `t`.
pub open spec fn newline_index(t: Seq<char>) -> Option<nat>
    decreases t.len(),
{
    if t.len() == 0 {
        None
    } else if t[0] == '\n' {
        Some(0)
    } else {
        match newline_index(t.drop_first()) {
            Some(i) => Some(i + 1),
            None => None,
        }
    }
}

proof fn lemma_newline_index(t: Seq<char>, k: int)
    requires
        0 <= k <= t.len(),
        forall|j: int| 0 <= j < k ==> t[j] != '\n',
    ensures
        k < t.len() && t[k] == '\n' ==> newline_index(t) == Some(k as nat),
        k == t.len() ==> newline_index(t) is None,
    decreases k,
{
    if k > 0 {
        lemma_newline_index(t.drop_first(), k - 1);
    }
}

/// The first line feed lies inside the text.
pub proof fn lemma_newline_index_bound(t: Seq<char>)
    ensures
        newline_index(t) matches Some(i) ==> i < t.len() && t[i as int] == '\n',
    decreases t.len(),
{
    if t.len() > 0 && t[0] != '\n' {
        lemma_newline_index_bound(t.drop_first());
    }
}

/// What scanning text for complete lines finds: the deltas of the lines, the
/// text after the last line feed (or after the failing line), and the
/// message of the first malformed line.
pub struct SseScan {
    pub deltas: Seq<Seq<char>>,
    pub rest: Seq<char>,
    pub error: Option<Seq<char>>,
}

/// Scans `text` line by line up to its last line feed, stopping at the first
/// malformed data line.
pub open spec fn sse_scan(text: Seq<char>) -> SseScan
    decreases text.len(),
{
    match newline_index(text) {
        None => SseScan { deltas: Seq::empty(), rest: text, error: None },
        Some(i) => {
            proof {
                lemma_newline_index_bound(text);
            }
            let after = text.skip(i + 1 as int);
            match sse_line(text.take(i as int)) {
                SseLine::Invalid(m) => SseScan { deltas: Seq::empty(), rest: after, error: Some(m) },
                SseLine::Delta(Some(d)) => {
                    let r = sse_scan(after);
                    SseScan { deltas: seq![d] + r.deltas, rest: r.rest, error: r.error }
                },
                _ => sse_scan(after),
            }
        },
    }
}

/// The text received so far and the deltas collected from it.
pub struct StreamedResponse {
    pub collected_text: String,
    pub deltas: Vec<String>,
}

impl StreamedResponse {
    /// The collected text is the deltas one after another.
    pub open spec fn wf(&self) -> bool {
        self.collected_text@ == views(self.deltas@).flatten_alt()
    }

    /// A response with nothing received.
    pub fn new() -> (r: StreamedResponse)
        ensures
            r.wf(),
            r.deltas@.len() == 0,
    {
        let r = StreamedResponse { collected_text: String::new(), deltas: Vec::new() };
        assert(views(r.deltas@) =~= Seq::<Seq<char>>::empty());
        r
    }

    /// The response of a provider that answers in one piece: the whole text
    /// as its only delta, or no delta for an empty text.
    pub fn from_whole_text(text: String) -> (r: StreamedResponse)
        ensures
            r.wf(),
            r.collected_text@ == text@,
            views(r.deltas@) == if text@.len() == 0 {
                Seq::<Seq<char>>::empty()
            } else {
                seq![text@]
            },
    {
        let mut r = StreamedResponse::new();
        proof {
            assert(views(r.deltas@) =~= Seq::<Seq<char>>::empty());
        }
        if !text.as_str().is_empty() {
            let ghost t = text@;
            assert(views(r.deltas@) =~= Seq::<Seq<char>>::empty());
            r.push_delta(text);
            proof {
                assert(views(r.deltas@) =~= seq![t]);
                crate::chunks::lemma_flatten_single(t);
            }
        } else {
            proof {
                assert(text@.len() == 0);
            }
        }
        r
    }

    /// Records one more delta.
    pub fn push_delta(&mut self, delta: String)
        requires
            old(self).wf(),
        ensures
            final(self).wf(),
            views(final(self).deltas@) == views(old(self).deltas@).push(delta@),
    {
        let joined = crate::text::concat2(self.collected_text.as_str(), delta.as_str());
        let ghost d = delta@;
        let ghost before = views(self.deltas@);
        self.collected_text = joined;
        self.deltas.push(delta);
        assert(views(self.deltas@) =~= before.push(d));
        assert(before.push(d).drop_last() =~= before);
    }
}

/// Appends decoded text to the unfinished line, then takes every complete
/// line off the front and records its delta; stops with a JSON error at a
/// malformed data line, leaving the text after that line.
pub fn append_decoded_text_and_parse_lines(
    decoded: &str,
    line_pending: &mut String,
    result: &mut StreamedResponse,
) -> (r: Result<(), MiniMaxError>)
    requires
        old(result).wf(),
    ensures
        ({
            let sc = sse_scan(old(line_pending)@ + decoded@);
            &&& final(result).wf()
            &&& final(line_pending)@ == sc.rest
            &&& views(final(result).deltas@) == views(old(result).deltas@) + sc.deltas
            &&& match r {
                Ok(_) => sc.error is None,
                Err(e) => e matches MiniMaxError::Json(m) && sc.error == Some(m@),
            }
        }),
{
    let mut text = chars_of(line_pending.as_str());
    let d = chars_of(decoded);
    push_chars(&mut text, d.as_slice());
    let ghost tv = text@;
    assert(tv == old(line_pending)@ + decoded@);
    let ghost d0 = views(result.deltas@);
    let mut pos: usize = 0;
    let ghost mut acc: Seq<Seq<char>> = Seq::empty();
    assert(tv.skip(0) =~= tv);
    loop
        invariant
            tv == text@,
            tv == old(line_pending)@ + decoded@,
            d0 == views(old(result).deltas@),
            pos <= tv.len(),
            result.wf(),
            views(result.deltas@) == d0 + acc,
            sse_scan(tv) == (SseScan {
                deltas: acc + sse_scan(tv.skip(pos as int)).deltas,
                rest: sse_scan(tv.skip(pos as int)).rest,
                error: sse_scan(tv.skip(pos as int)).error,
            }),
        decreases tv.len() - pos,
    {
        let ghost rest = tv.skip(pos as int);
        let mut k: usize = pos;
        while k < text.len() && text[k] != '\n'
            invariant
                pos <= k <= tv.len(),
                tv == text@,
                forall|j: int| pos <= j < k ==> tv[j] != '\n',
            decreases tv.len() - k,
        {
            k = k + 1;
        }
        proof {
            lemma_newline_index(rest, k - pos);
        }
        if k == text.len() {
            let tail = sub_chars(text.as_slice(), pos, k);
            assert(tail@ =~= rest);
            *line_pending = string_of(tail.as_slice());
            assert(acc + Seq::<Seq<char>>::empty() =~= acc);
            assert(sse_scan(rest) == SseScan { deltas: Seq::empty(), rest: rest, error: None });
            return Ok(());
        }
        let line = sub_chars(text.as_slice(), pos, k);
        assert(line@ =~= rest.take(k - pos));
        assert(rest.skip(k - pos + 1) =~= tv.skip(k + 1));
        let line_s = string_of(line.as_slice());
        match parse_sse_delta_line(line_s.as_str()) {
            Err(e) => {
                let tail = sub_chars(text.as_slice(), k + 1, text.len());
                assert(tail@ =~= tv.skip(k + 1));
                *line_pending = string_of(tail.as_slice());
                assert(acc + Seq::<Seq<char>>::empty() =~= acc);
                assert(sse_line(rest.take(k - pos)) matches SseLine::Invalid(_));
                assert(sse_scan(rest).rest == tv.skip(k + 1));
                assert(sse_scan(rest).deltas == Seq::<Seq<char>>::empty());
                return Err(e);
            },
            Ok(Some(delta)) => {
                let ghost dv = delta@;
                result.push_delta(delta);
                proof {
                    let r2 = sse_scan(tv.skip(k + 1));
                    assert(acc + (seq![dv] + r2.deltas) =~= acc.push(dv) + r2.deltas);
                    assert(d0 + acc.push(dv) =~= (d0 + acc).push(dv));
                    acc = acc.push(dv);
                }
            },
            Ok(None) => {},
        }
        pos = k + 1;
    }
}

/// Which stage a stream failed in.
pub enum SseFailure {
    /// The bytes are not UTF-8; the message of the decoding error.
    Utf8(Seq<char>),
    /// A data line is malformed; the JSON error's message.
    Json(Seq<char>),
}

/// The state of a stream reader: bytes of an unfinished character, text of
/// an unfinished line, and the deltas so far.
pub struct SseState {
    pub bytes: Seq<u8>,
    pub line: Seq<char>,
    pub deltas: Seq<Seq<char>>,
}

/// Feeding one chunk (or, with `flush`, the end of the stream) to a reader.
pub open spec fn sse_feed(st: SseState, chunk: Seq<u8>, flush: bool) -> (SseState, Option<SseFailure>) {
    let (res, keep) = utf8_step(st.bytes + chunk, flush);
    match res {
        Err(m) => (SseState { bytes: keep, ..st }, Some(SseFailure::Utf8(m))),
        Ok(text) => {
            let sc = sse_scan(st.line + text);
            (
                SseState { bytes: keep, line: sc.rest, deltas: st.deltas + sc.deltas },
                match sc.error {
                    Some(m) => Some(SseFailure::Json(m)),
                    None => None,
                },
            )
        },
    }
}

/// Ending a stream: what is held back is decoded with no more bytes to wait
/// for, and a last line without a line feed counts unless it is blank.
pub open spec fn sse_finish(st: SseState) -> (SseState, Option<SseFailure>) {
    let (s1, f) = sse_feed(st, Seq::empty(), true);
    if f is Some {
        (s1, f)
    } else if trim(s1.line).len() == 0 {
        (SseState { line: Seq::empty(), ..s1 }, None)
    } else {
        match sse_line(s1.line) {
            SseLine::Invalid(m) => (s1, Some(SseFailure::Json(m))),
            SseLine::Delta(Some(d)) => (
                SseState { line: Seq::empty(), deltas: s1.deltas.push(d), ..s1 },
                None,
            ),
            _ => (SseState { line: Seq::empty(), ..s1 }, None),
        }
    }
}

/// Whether an error is the failure `f`.
pub open spec fn is_failure(e: MiniMaxError, f: SseFailure) -> bool {
    match f {
        SseFailure::Utf8(m) => e matches MiniMaxError::InvalidUtf8(x) && x@ == m,
        SseFailure::Json(m) => e matches MiniMaxError::Json(x) && x@ == m,
    }
}

/// Feeds one received chunk to the reader.
pub fn process_sse_chunk(
    chunk: &[u8],
    utf8_pending: &mut Vec<u8>,
    line_pending: &mut String,
    result: &mut StreamedResponse,
) -> (r: Result<(), MiniMaxError>)
    requires
        old(result).wf(),
    ensures
        ({
            let (st, f) = sse_feed(
                SseState {
                    bytes: old(utf8_pending)@,
                    line: old(line_pending)@,
                    deltas: views(old(result).deltas@),
                },
                chunk@,
                false,
            );
            &&& final(result).wf()
            &&& match f {
                Some(fail) => r matches Err(e) && is_failure(e, fail),
                None => r is Ok && final(utf8_pending)@ == st.bytes && final(line_pending)@
                    == st.line && views(final(result).deltas@) == st.deltas,
            }
        }),
        r is Ok ==> (utf8_step(old(utf8_pending)@ + chunk@, false).0 matches Ok(t) && decoded_prefix(
            old(utf8_pending)@ + chunk@,
            final(utf8_pending)@,
            t,
        )),
        r is Err ==> (forall|ext: Seq<u8>| !#[trigger] valid_utf8(old(utf8_pending)@ + chunk@ + ext)) || (
        utf8_step(old(utf8_pending)@ + chunk@, false).0 matches Ok(t) && decoded_prefix(
            old(utf8_pending)@ + chunk@,
            final(utf8_pending)@,
            t,
        ) && sse_scan(old(line_pending)@ + t).error is Some),
{
    let decoded = match decode_complete_utf8(chunk, utf8_pending, false) {
        Ok(s) => s,
        Err(e) => return Err(e),
    };
    append_decoded_text_and_parse_lines(decoded.as_str(), line_pending, result)
}

/// Ends the stream: decodes what is held back and records a last unfinished
/// line unless it is blank.
pub fn finalize_sse_stream(
    utf8_pending: &mut Vec<u8>,
    line_pending: &mut String,
    result: &mut StreamedResponse,
) -> (r: Result<(), MiniMaxError>)
    requires
        old(result).wf(),
    ensures
        ({
            let (st, f) = sse_finish(
                SseState {
                    bytes: old(utf8_pending)@,
                    line: old(line_pending)@,
                    deltas: views(old(result).deltas@),
                },
            );
            &&& final(result).wf()
            &&& match f {
                Some(fail) => r matches Err(e) && is_failure(e, fail),
                None => r is Ok && final(utf8_pending)@ == st.bytes && final(line_pending)@
                    == st.line && views(final(result).deltas@) == st.deltas,
            }
        }),
{
    let empty: Vec<u8> = Vec::new();
    assert(old(utf8_pending)@ + empty@ =~= old(utf8_pending)@);
    let decoded = match decode_complete_utf8(empty.as_slice(), utf8_pending, true) {
        Ok(s) => s,
        Err(e) => return Err(e),
    };
    match append_decoded_text_and_parse_lines(decoded.as_str(), line_pending, result) {
        Ok(_) => {},
        Err(e) => return Err(e),
    }
    if !is_blank(line_pending.as_str()) {
        match parse_sse_delta_line(line_pending.as_str()) {
            Ok(Some(d)) => result.push_delta(d),
            Ok(None) => {},
            Err(e) => return Err(e),
        }
    }
    *line_pending = String::new();
    Ok(())
}

/// The reader after the chunks `chunks`, and the first failure if any.
pub open spec fn sse_run(chunks: Seq<Seq<u8>>) -> (SseState, Option<SseFailure>)
    decreases chunks.len(),
{
    if chunks.len() == 0 {
        (SseState { bytes: Seq::empty(), line: Seq::empty(), deltas: Seq::empty() }, None)
    } else {
        let (st, f) = sse_run(chunks.drop_last());
        if f is Some {
            (st, f)
        } else {
            sse_feed(st, chunks.last(), false)
        }
    }
}

/// The deltas of a whole stream received as `chunks`, or its first failure.
pub open spec fn sse_collect(chunks: Seq<Seq<u8>>) -> Result<Seq<Seq<char>>, SseFailure> {
    let (st, f) = sse_run(chunks);
    match f {
        Some(fail) => Err(fail),
        None => {
            let (st2, f2) = sse_finish(st);
            match f2 {
                Some(fail) => Err(fail),
                None => Ok(st2.deltas),
            }
        },
    }
}

/// The deltas of a whole decoded stream `text`: those of its complete lines,
/// then that of a last unfinished line unless it is blank; or the message of
/// the first malformed data line.
pub open spec fn text_deltas(text: Seq<char>) -> Result<Seq<Seq<char>>, Seq<char>> {
    let sc = sse_scan(text);
    match sc.error {
        Some(m) => Err(m),
        None => if trim(sc.rest).len() == 0 {
            Ok(sc.deltas)
        } else {
            match sse_line(sc.rest) {
                SseLine::Invalid(m) => Err(m),
                SseLine::Delta(Some(d)) => Ok(sc.deltas.push(d)),
                _ => Ok(sc.deltas),
            }
        },
    }
}

/// The reader `st` after the bytes `flat`: the bytes before its held-back
/// tail are valid UTF-8, and scanning their text gives its deltas and its
/// unfinished line.
spec fn run_consistent(flat: Seq<u8>, st: SseState) -> bool {
    let n = flat.len() - st.bytes.len();
    &&& st.bytes.len() <= flat.len()
    &&& flat.skip(n) == st.bytes
    &&& valid_utf8(flat.take(n))
    &&& sse_scan(decode_utf8(flat.take(n))) == SseScan { deltas: st.deltas, rest: st.line, error: None }
}

/// Reads a whole stream received as `chunks` into its deltas and text.
///
/// Where the stream was split into chunks does not matter: it is read
/// without error exactly when its bytes are valid UTF-8 and the lines of
/// their text are well formed, and then it gives the deltas of that whole
/// text. The split decides only which error is reported, and where.
pub fn collect_streamed_response_from_chunks(chunks: Vec<Vec<u8>>) -> (r: Result<StreamedResponse, MiniMaxError>)
    ensures
        r is Ok <==> valid_utf8(chunks@.map_values(|c: Vec<u8>| c@).flatten()) && text_deltas(
            decode_utf8(chunks@.map_values(|c: Vec<u8>| c@).flatten()),
        ) is Ok,
        match r {
            Ok(resp) => resp.wf() && sse_collect(chunks@.map_values(|c: Vec<u8>| c@)) == Ok::<
                Seq<Seq<char>>,
                SseFailure,
            >(views(resp.deltas@)) && valid_utf8(chunks@.map_values(|c: Vec<u8>| c@).flatten())
                && text_deltas(decode_utf8(chunks@.map_values(|c: Vec<u8>| c@).flatten())) == Ok::<
                Seq<Seq<char>>,
                Seq<char>,
            >(views(resp.deltas@)),
            Err(e) => sse_collect(chunks@.map_values(|c: Vec<u8>| c@)) matches Err(fail)
                && is_failure(e, fail),
        },
{
    let ghost cs = chunks@.map_values(|c: Vec<u8>| c@);
    let mut utf8_pending: Vec<u8> = Vec::new();
    let mut line_pending = String::new();
    let mut result = StreamedResponse::new();
    let mut i: usize = 0;
    assert(cs.take(0) =~= Seq::<Seq<u8>>::empty());
    assert(views(result.deltas@) =~= Seq::<Seq<char>>::empty());
    proof {
        let e = Seq::<u8>::empty();
        assert(e.skip(0) =~= e);
        assert(e.take(0) =~= e);
        assert(cs.take(0).flatten_alt() =~= e);
    }
    while i < chunks.len()
        invariant
            i <= chunks@.len(),
            cs == chunks@.map_values(|c: Vec<u8>| c@),
            result.wf(),
            run_consistent(
                cs.take(i as int).flatten_alt(),
                SseState { bytes: utf8_pending@, line: line_pending@, deltas: views(result.deltas@) },
            ),
            sse_run(cs.take(i as int)) == (
            SseState {
                bytes: utf8_pending@,
                line: line_pending@,
                deltas: views(result.deltas@),
            },
            None::<SseFailure>),
        decreases chunks@.len() - i,
    {
        let ghost pre = cs.take(i as int);
        assert(cs.take(i + 1 as int).drop_last() =~= pre);
        assert(cs.take(i + 1 as int).last() == chunks@[i as int]@);
        let ghost st0 = SseState { bytes: utf8_pending@, line: line_pending@, deltas: views(result.deltas@) };
        match process_sse_chunk(chunks[i].as_slice(), &mut utf8_pending, &mut line_pending, &mut result) {
            Ok(_) => {
                proof {
                    let t = utf8_step(st0.bytes + chunks@[i as int]@, false).0->Ok_0;
                    lemma_feed_consistent(pre.flatten_alt(), st0, chunks@[i as int]@, utf8_pending@, t);
                }
            },
            Err(e) => {
                proof {
                    lemma_run_failed_stays(cs, i + 1);
                    let c = chunks@[i as int]@;
                    let rest = cs.skip(i + 1).flatten_alt();
                    assert(cs =~= cs.take(i + 1) + cs.skip(i + 1));
                    vstd::seq_lib::lemma_flatten_alt_concat(cs.take(i + 1), cs.skip(i + 1));
                    lemma_step_failed(pre.flatten_alt(), st0, c, utf8_pending@, line_pending@, rest);
                    cs.lemma_flatten_and_flatten_alt_are_equivalent();
                }
                return Err(e);
            },
        }
        i = i + 1;
    }
    assert(cs.take(i as int) =~= cs);
    let ghost st = SseState { bytes: utf8_pending@, line: line_pending@, deltas: views(result.deltas@) };
    match finalize_sse_stream(&mut utf8_pending, &mut line_pending, &mut result) {
        Ok(_) => {
            proof {
                lemma_finish_consistent(cs.flatten_alt(), st);
                cs.lemma_flatten_and_flatten_alt_are_equivalent();
            }
            Ok(result)
        },
        Err(e) => {
            proof {
                lemma_finish_failed(cs.flatten_alt(), st);
                cs.lemma_flatten_and_flatten_alt_are_equivalent();
            }
            Err(e)
        },
    }
}

/// When `p` and `p + x` are valid UTF-8, so is `x`.
proof fn lemma_valid_suffix(p: Seq<u8>, x: Seq<u8>)
    requires
        valid_utf8(p),
        valid_utf8(p + x),
    ensures
        valid_utf8(x),
    decreases p.len(),
{
    if p.len() == 0 {
        assert(p + x =~= x);
    } else {
        let rest = vstd::utf8::pop_first_scalar(p);
        assert(rest.len() < p.len());
        assert((p + x)[0] == p[0]);
        assert(vstd::utf8::pop_first_scalar(p + x) =~= rest + x);
        lemma_valid_suffix(rest, x);
    }
}

/// A malformed line in `a` is reported, the same, when more text follows.
proof fn lemma_scan_error_prefix(a: Seq<char>, b: Seq<char>)
    requires
        sse_scan(a).error is Some,
    ensures
        sse_scan(a + b).error == sse_scan(a).error,
    decreases a.len(),
{
    lemma_newline_index_first(a);
    lemma_newline_index_bound(a);
    let i = newline_index(a)->Some_0;
    let ab = a + b;
    assert forall|j: int| 0 <= j < i implies ab[j] != '\n' by {
        assert(ab[j] == a[j]);
    }
    lemma_newline_index(ab, i as int);
    assert(ab.take(i as int) =~= a.take(i as int));
    let after = a.skip(i + 1 as int);
    assert(ab.skip(i + 1 as int) =~= after + b);
    match sse_line(a.take(i as int)) {
        SseLine::Invalid(_) => {},
        _ => {
            lemma_scan_error_prefix(after, b);
        },
    }
}

/// When the text of the bytes received so far, with `more` bytes after
/// them, would be valid UTF-8, a valid continuation of what is held back
/// exists; so a chunk that fails is a failure of the whole stream.
proof fn lemma_step_failed(
    flat: Seq<u8>,
    st: SseState,
    chunk: Seq<u8>,
    keep: Seq<u8>,
    line: Seq<char>,
    more: Seq<u8>,
)
    requires
        run_consistent(flat, st),
        (forall|ext: Seq<u8>| !#[trigger] valid_utf8(st.bytes + chunk + ext)) || (utf8_step(
            st.bytes + chunk,
            false,
        ).0 matches Ok(t) && decoded_prefix(st.bytes + chunk, keep, t) && sse_scan(st.line + t).error is Some),
    ensures
        !valid_utf8(flat + chunk + more) || text_deltas(decode_utf8(flat + chunk + more)) is Err,
{
    let n = flat.len() - st.bytes.len();
    let p = flat.take(n);
    let all = st.bytes + chunk;
    assert(flat =~= p + st.bytes);
    let whole = flat + chunk + more;
    assert(whole =~= p + (all + more));
    if valid_utf8(whole) {
        lemma_valid_suffix(p, all + more);
        if !(forall|ext: Seq<u8>| !#[trigger] valid_utf8(all + ext)) {
            let t = utf8_step(all, false).0->Ok_0;
            let m = all.len() - keep.len();
            let piece = all.take(m);
            assert(all =~= piece + keep);
            let p2 = p + piece;
            assert(whole =~= p2 + (keep + more));
            lemma_decode_concat(p, piece);
            lemma_valid_suffix(p2, keep + more);
            lemma_decode_concat(p2, keep + more);
            lemma_scan_concat(decode_utf8(p), t);
            lemma_scan_error_prefix(decode_utf8(p2), decode_utf8(keep + more));
        } else {
            assert(!valid_utf8(all + more));
        }
    }
}

/// Ending a reader consistent with the whole stream `flat` fails only when
/// the stream is not valid UTF-8 or its text has a malformed line.
proof fn lemma_finish_failed(flat: Seq<u8>, st: SseState)
    requires
        run_consistent(flat, st),
        sse_finish(st).1 is Some,
    ensures
        !valid_utf8(flat) || text_deltas(decode_utf8(flat)) is Err,
{
    let n = flat.len() - st.bytes.len();
    let p = flat.take(n);
    assert(flat =~= p + st.bytes);
    assert(st.bytes + Seq::<u8>::empty() =~= st.bytes);
    lemma_scan_rest(decode_utf8(p));
    if valid_utf8(flat) {
        lemma_valid_suffix(p, st.bytes);
        if st.bytes.len() == 0 {
            assert(flat =~= p);
            assert(st.line + Seq::<char>::empty() =~= st.line);
        } else {
            let text = decode_utf8(st.bytes);
            lemma_decode_concat(p, st.bytes);
            lemma_scan_concat(decode_utf8(p), text);
        }
    }
}

/// Decoding two valid byte sequences one after the other decodes each.
proof fn lemma_decode_concat(b1: Seq<u8>, b2: Seq<u8>)
    requires
        valid_utf8(b1),
        valid_utf8(b2),
    ensures
        valid_utf8(b1 + b2),
        decode_utf8(b1 + b2) == decode_utf8(b1) + decode_utf8(b2),
    decreases b1.len(),
{
    vstd::utf8::valid_utf8_concat(b1, b2);
    if b1.len() == 0 {
        assert(b1 + b2 =~= b2);
        assert(decode_utf8(b1) + decode_utf8(b2) =~= decode_utf8(b2));
    } else {
        let rest = vstd::utf8::pop_first_scalar(b1);
        assert(rest.len() < b1.len());
        lemma_decode_concat(rest, b2);
        assert(vstd::utf8::pop_first_scalar(b1 + b2) =~= rest + b2);
        assert(decode_utf8(b1 + b2) =~= decode_utf8(b1) + decode_utf8(b2));
    }
}

/// No line feed comes before the first one; with none, there is none at all.
proof fn lemma_newline_index_first(t: Seq<char>)
    ensures
        newline_index(t) matches Some(i) ==> i < t.len() && forall|j: int| 0 <= j < i ==> t[j] != '\n',
        newline_index(t) is None ==> forall|j: int| 0 <= j < t.len() ==> t[j] != '\n',
    decreases t.len(),
{
    if t.len() > 0 && t[0] != '\n' {
        let u = t.drop_first();
        lemma_newline_index_first(u);
        match newline_index(u) {
            Some(k) => {
                assert forall|j: int| 0 <= j < k + 1 implies t[j] != '\n' by {
                    if j > 0 {
                        assert(t[j] == u[j - 1]);
                    }
                }
            },
            None => {
                assert forall|j: int| 0 <= j < t.len() implies t[j] != '\n' by {
                    if j > 0 {
                        assert(t[j] == u[j - 1]);
                    }
                }
            },
        }
    }
}

/// The text left after scanning holds no line feed.
proof fn lemma_scan_rest(a: Seq<char>)
    requires
        sse_scan(a).error is None,
    ensures
        newline_index(sse_scan(a).rest) is None,
    decreases a.len(),
{
    if let Some(i) = newline_index(a) {
        lemma_newline_index_bound(a);
        lemma_scan_rest(a.skip(i + 1 as int));
    }
}

/// Scanning `a + b` is scanning `a`, then what `a` left followed by `b`.
proof fn lemma_scan_concat(a: Seq<char>, b: Seq<char>)
    requires
        sse_scan(a).error is None,
    ensures
        sse_scan(a + b) == (SseScan {
            deltas: sse_scan(a).deltas + sse_scan(sse_scan(a).rest + b).deltas,
            rest: sse_scan(sse_scan(a).rest + b).rest,
            error: sse_scan(sse_scan(a).rest + b).error,
        }),
    decreases a.len(),
{
    lemma_newline_index_first(a);
    match newline_index(a) {
        None => {
            assert(sse_scan(a).deltas + sse_scan(a + b).deltas =~= sse_scan(a + b).deltas);
        },
        Some(i) => {
            lemma_newline_index_bound(a);
            let ab = a + b;
            assert forall|j: int| 0 <= j < i implies ab[j] != '\n' by {
                assert(ab[j] == a[j]);
            }
            lemma_newline_index(ab, i as int);
            assert(ab.take(i as int) =~= a.take(i as int));
            let after = a.skip(i + 1 as int);
            assert(ab.skip(i + 1 as int) =~= after + b);
            lemma_scan_concat(after, b);
            let sr = sse_scan(sse_scan(after).rest + b);
            if let SseLine::Delta(Some(d)) = sse_line(a.take(i as int)) {
                assert(seq![d] + (sse_scan(after).deltas + sr.deltas) =~= (seq![d] + sse_scan(after).deltas)
                    + sr.deltas);
            }
        },
    }
}

/// Feeding a chunk whose bytes decode to `text` (all but the held-back tail
/// `keep`) keeps the reader consistent with the bytes received.
proof fn lemma_feed_consistent(flat: Seq<u8>, st: SseState, chunk: Seq<u8>, keep: Seq<u8>, text: Seq<char>)
    requires
        run_consistent(flat, st),
        decoded_prefix(st.bytes + chunk, keep, text),
        sse_scan(st.line + text).error is None,
    ensures
        run_consistent(
            flat + chunk,
            SseState {
                bytes: keep,
                line: sse_scan(st.line + text).rest,
                deltas: st.deltas + sse_scan(st.line + text).deltas,
            },
        ),
{
    let n = flat.len() - st.bytes.len();
    let p = flat.take(n);
    let all = st.bytes + chunk;
    let m = all.len() - keep.len();
    let piece = all.take(m);
    assert(flat =~= p + st.bytes);
    let whole = flat + chunk;
    assert(whole =~= p + all);
    let n2 = whole.len() - keep.len();
    assert(n2 == n + m);
    assert(whole.take(n2) =~= p + piece);
    assert(whole.skip(n2) =~= all.skip(m));
    lemma_decode_concat(p, piece);
    lemma_scan_concat(decode_utf8(p), text);
}

/// Ending a reader consistent with the whole stream `flat` without error
/// gives the deltas of the stream's decoded text.
proof fn lemma_finish_consistent(flat: Seq<u8>, st: SseState)
    requires
        run_consistent(flat, st),
        sse_finish(st).1 is None,
    ensures
        valid_utf8(flat),
        text_deltas(decode_utf8(flat)) == Ok::<Seq<Seq<char>>, Seq<char>>(sse_finish(st).0.deltas),
{
    let n = flat.len() - st.bytes.len();
    let p = flat.take(n);
    assert(flat =~= p + st.bytes);
    assert(st.bytes + Seq::<u8>::empty() =~= st.bytes);
    lemma_scan_rest(decode_utf8(p));
    if st.bytes.len() == 0 {
        assert(flat =~= p);
        assert(st.line + Seq::<char>::empty() =~= st.line);
        assert(st.deltas + Seq::<Seq<char>>::empty() =~= st.deltas);
    } else {
        let text = decode_utf8(st.bytes);
        lemma_decode_concat(p, st.bytes);
        lemma_scan_concat(decode_utf8(p), text);
    }
}

proof fn lemma_run_failed_stays(cs: Seq<Seq<u8>>, i: int)
    requires
        0 <= i <= cs.len(),
        sse_run(cs.take(i)).1 is Some,
    ensures
        sse_run(cs).1 == sse_run(cs.take(i)).1,
    decreases cs.len() - i,
{
    if i < cs.len() {
        assert(cs.take(i + 1).drop_last() =~= cs.take(i));
        lemma_run_failed_stays(cs, i + 1);
    } else {
        assert(cs.take(i) =~= cs);
    }
}

} // verus!
