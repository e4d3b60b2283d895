//! The errors of the bridge.

use vstd::prelude::*;
use vstd::utf8::*;

use crate::text;
use crate::text::{concat, concat3};

verus! {

/// The agent runtimes that the bridge drives.
#[derive(Debug, Clone, Copy, PartialEq, Eq, Structural)]
pub enum HarnessKind {
    Omp,
}

/// Why an operation of the bridge failed.
#[derive(Debug)]
pub enum HarnessServerError {
    /// The runtime, or a request to it, broke the protocol or a rule of the bridge.
    Protocol(String),
    /// An operation of the operating system failed; the text describes how.
    Io(String),
    /// A JSON document did not have the expected form; the text describes how.
    Json(String),
    /// The runtime ended on its own.
    HarnessExited { kind: HarnessKind, status: String, stderr: String },
}

/// The content of a [`HarnessServerError`].
pub enum ErrorView {
    Protocol(Seq<char>),
    Io(Seq<char>),
    Json(Seq<char>),
    HarnessExited { kind: HarnessKind, status: Seq<char>, stderr: Seq<char> },
}

impl View for HarnessServerError {
    type V = ErrorView;

    open spec fn view(&self) -> ErrorView {
        match self {
            HarnessServerError::Protocol(message) => ErrorView::Protocol(message@),
            HarnessServerError::Io(message) => ErrorView::Io(message@),
            HarnessServerError::Json(message) => ErrorView::Json(message@),
            HarnessServerError::HarnessExited { kind, status, stderr } => ErrorView::HarnessExited {
                kind: *kind,
                status: status@,
                stderr: stderr@,
            },
        }
    }
}

/// The protocol error with a message.
pub open spec fn protocol_fault(message: Seq<char>) -> ErrorView {
    ErrorView::Protocol("OMP protocol error: "@ + message)
}

/// Whether a result carries what a specification asks for: the same outcome, with the same
/// content or the same error.
pub open spec fn agrees<T: View>(
    got: Result<T, HarnessServerError>,
    want: Result<T::V, ErrorView>,
) -> bool {
    match (got, want) {
        (Ok(value), Ok(content)) => value@ == content,
        (Err(error), Err(fault)) => error@ == fault,
        _ => false,
    }
}

/// The longest beginning of `s`, among those of at most `n` characters, that takes at most
/// `limit` bytes in UTF-8.
pub open spec fn fitting_prefix(s: Seq<char>, n: nat, limit: nat) -> Seq<char>
    decreases n,
{
    if n == 0 || text::byte_len(s.take(n as int)) <= limit {
        s.take(n as int)
    } else {
        fitting_prefix(s, (n - 1) as nat, limit)
    }
}

/// The most bytes of a reported error that are passed on.
pub const ERROR_LIMIT: usize = 4096;

/// A reported error cut to [`ERROR_LIMIT`] bytes, with a mark where something was cut off.
pub open spec fn spec_bounded_error(error: Option<Seq<char>>) -> Seq<char> {
    let text = match error {
        Some(text) => text,
        None => "unspecified error"@,
    };
    if text::byte_len(text) <= ERROR_LIMIT {
        text
    } else {
        fitting_prefix(text, text.len(), ERROR_LIMIT as nat) + " [truncated]"@
    }
}

proof fn lemma_take_step(s: Seq<char>, n: int)
    requires
        0 <= n < s.len(),
    ensures
        text::byte_len(s.take(n)) < text::byte_len(s.take(n + 1)),
{
    let last = seq![s[n]];
    assert(s.take(n + 1) =~= s.take(n) + last);
    text::lemma_encode_concat(s.take(n), last);
    assert(encode_utf8(last).len() > 0);
}

proof fn lemma_take_monotone(s: Seq<char>, n: int, m: int)
    requires
        0 <= n < m <= s.len(),
    ensures
        text::byte_len(s.take(n)) < text::byte_len(s.take(m)),
    decreases m,
{
    lemma_take_step(s, m - 1);
    if n < m - 1 {
        lemma_take_monotone(s, n, m - 1);
    }
}

proof fn lemma_encode_front(s: Seq<char>)
    requires
        s.len() > 0,
    ensures
        valid_utf8(encode_utf8(s)),
        length_of_first_scalar(encode_utf8(s)) == encode_scalar(s[0] as u32).len(),
        pop_first_scalar(encode_utf8(s)) == encode_utf8(s.drop_first()),
{
    encode_utf8_first_scalar(s);
    encode_utf8_valid_utf8(s);
    assert(pop_first_scalar(encode_utf8(s)) =~= encode_utf8(s.drop_first()));
}

/// The end of each beginning of a string is a character boundary of its encoding.
proof fn lemma_prefix_boundary(s: Seq<char>, n: int)
    requires
        0 <= n <= s.len(),
    ensures
        is_char_boundary(encode_utf8(s), text::byte_len(s.take(n)) as int),
    decreases n,
{
    encode_utf8_valid_utf8(s);
    if n == 0 {
        assert(s.take(0) =~= Seq::<char>::empty());
    } else {
        lemma_encode_front(s);
        lemma_prefix_boundary(s.drop_first(), n - 1);
        assert(s.take(n).drop_first() =~= s.drop_first().take(n - 1));
        assert(s.take(n)[0] == s[0]);
        let e = text::byte_len(s.take(n));
        assert(e == encode_scalar(s[0] as u32).len() + text::byte_len(s.drop_first().take(n - 1)));
        assert(s =~= s.take(n) + s.skip(n));
        text::lemma_encode_concat(s.take(n), s.skip(n));
    }
}

/// Each character boundary of an encoding is the end of a beginning of the string.
proof fn lemma_boundary_prefix(s: Seq<char>, e: int) -> (n: int)
    requires
        is_char_boundary(encode_utf8(s), e),
    ensures
        0 <= n <= s.len(),
        text::byte_len(s.take(n)) == e,
    decreases s.len(),
{
    encode_utf8_valid_utf8(s);
    assert(s.take(0) =~= Seq::<char>::empty());
    if e == 0 {
        0
    } else {
        assert(s.len() > 0);
        lemma_encode_front(s);
        let n = lemma_boundary_prefix(s.drop_first(), e - encode_scalar(s[0] as u32).len());
        assert(s.take(n + 1).drop_first() =~= s.drop_first().take(n));
        assert(s.take(n + 1)[0] == s[0]);
        n + 1
    }
}

proof fn lemma_fitting(s: Seq<char>, n: int, m: int, limit: nat)
    requires
        0 <= n <= m <= s.len(),
        text::byte_len(s.take(n)) <= limit,
        forall|k: int| n < k <= m ==> #[trigger] text::byte_len(s.take(k)) > limit,
    ensures
        fitting_prefix(s, m as nat, limit) == s.take(n),
    decreases m,
{
    if n < m {
        lemma_fitting(s, n, m - 1, limit);
    }
}

/// A reported error cut to [`ERROR_LIMIT`] bytes, with a mark where something was cut off.
pub fn bounded_error(error: Option<&str>) -> (text: String)
    ensures
        text@ == spec_bounded_error(
            match error {
                Some(s) => Some(s@),
                None => None,
            },
        ),
{
    let error = match error {
        Some(text) => text,
        None => "unspecified error",
    };
    let bytes = error.as_bytes();
    if bytes.len() <= ERROR_LIMIT {
        return error.to_owned();
    }
    let mut end: usize = ERROR_LIMIT;
    proof {
        encode_utf8_valid_utf8(error@);
    }
    while !error.is_char_boundary(end)
        invariant
            end <= ERROR_LIMIT,
            valid_utf8(encode_utf8(error@)),
            forall|k: int| end < k <= ERROR_LIMIT ==> !is_char_boundary(encode_utf8(error@), k),
        decreases end,
    {
        end -= 1;
    }
    let (head, _rest) = error.split_at(end);
    proof {
        let s = error@;
        let n = lemma_boundary_prefix(s, end as int);
        assert(s =~= s.take(n) + s.skip(n));
        text::lemma_encode_concat(s.take(n), s.skip(n));
        assert(encode_utf8(s).subrange(0, end as int) =~= encode_utf8(s.take(n)));
        encode_utf8_decode_utf8(head@);
        encode_utf8_decode_utf8(s.take(n));
        assert forall|k: int| n < k <= s.len() implies #[trigger] text::byte_len(s.take(k))
            > ERROR_LIMIT by {
            lemma_prefix_boundary(s, k);
            lemma_take_monotone(s, n, k);
        }
        lemma_fitting(s, n, s.len() as int, ERROR_LIMIT as nat);
    }
    concat(head, " [truncated]")
}

/// A reported error that is passed on takes a bounded number of bytes.
pub proof fn law_bounded_error_is_bounded(error: Option<Seq<char>>)
    ensures
        text::byte_len(spec_bounded_error(error)) <= ERROR_LIMIT + 12,
{
    reveal_strlit("unspecified error");
    reveal_strlit(" [truncated]");
    let text = match error {
        Some(text) => text,
        None => "unspecified error"@,
    };
    if text::byte_len(text) > ERROR_LIMIT {
        let head = fitting_prefix(text, text.len(), ERROR_LIMIT as nat);
        lemma_fitting_is_prefix(text, text.len(), ERROR_LIMIT as nat);
        text::lemma_encode_concat(head, " [truncated]"@);
        is_ascii_chars_encode_utf8(" [truncated]"@);
    }
}

/// What is kept of a reported error is its beginning.
pub proof fn law_bounded_error_keeps_the_beginning(text: Seq<char>)
    ensures
        text::byte_len(text) <= ERROR_LIMIT ==> spec_bounded_error(Some(text)) == text,
        text::byte_len(text) > ERROR_LIMIT ==> exists|n: int|
            0 <= n < text.len() && spec_bounded_error(Some(text)) == #[trigger] text.take(n)
                + " [truncated]"@,
{
    if text::byte_len(text) > ERROR_LIMIT {
        lemma_fitting_is_prefix(text, text.len(), ERROR_LIMIT as nat);
        let n = fitting_prefix(text, text.len(), ERROR_LIMIT as nat).len() as int;
        assert(text.take(text.len() as int) =~= text);
        assert(spec_bounded_error(Some(text)) == text.take(n) + " [truncated]"@);
    }
}

proof fn lemma_fitting_is_prefix(s: Seq<char>, n: nat, limit: nat)
    requires
        n <= s.len(),
    ensures
        fitting_prefix(s, n, limit).len() <= n,
        fitting_prefix(s, n, limit) == s.take(fitting_prefix(s, n, limit).len() as int),
        text::byte_len(fitting_prefix(s, n, limit)) <= limit,
    decreases n,
{
    if n == 0 {
        assert(s.take(0) =~= Seq::<char>::empty());
    } else if text::byte_len(s.take(n as int)) > limit {
        lemma_fitting_is_prefix(s, (n - 1) as nat, limit);
    }
}

/// An error text of up to 4096 bytes is told whole; of a longer one the longest beginning that fits is
/// told, marked as cut; and where there is none, that is said.
pub proof fn law_errors_are_told_up_to_a_limit(text: Seq<char>)
    ensures
        encode_utf8(text).len() <= 4096 ==> spec_bounded_error(Some(text)) == text,
        encode_utf8(text).len() > 4096 ==> exists|n: int|
            0 <= n < text.len() && encode_utf8(#[trigger] text.take(n)).len() <= 4096
                && encode_utf8(text.take(n + 1)).len() > 4096 && spec_bounded_error(Some(text))
                == text.take(n) + " [truncated]"@,
        spec_bounded_error(None) == "unspecified error"@,
{
    reveal_strlit("unspecified error");
    lemma_encoding_is_short("unspecified error"@);
    if encode_utf8(text).len() > 4096 {
        lemma_fitting_is_longest(text, text.len(), 4096);
        let n = fitting_prefix(text, text.len(), 4096).len() as int;
        assert(text.take(text.len() as int) =~= text);
        assert(spec_bounded_error(Some(text)) == text.take(n) + " [truncated]"@);
    }
}

/// No character takes more than four bytes.
proof fn lemma_encoding_is_short(s: Seq<char>)
    ensures
        encode_utf8(s).len() <= 4 * s.len(),
    decreases s.len(),
{
    if s.len() > 0 {
        lemma_encoding_is_short(s.drop_first());
    }
}

proof fn lemma_fitting_is_longest(s: Seq<char>, n: nat, limit: nat)
    requires
        n <= s.len(),
    ensures
        ({
            let k = fitting_prefix(s, n, limit).len() as int;
            &&& k <= n
            &&& fitting_prefix(s, n, limit) == s.take(k)
            &&& encode_utf8(s.take(k)).len() <= limit
            &&& k < n ==> encode_utf8(s.take(k + 1)).len() > limit
            &&& k == n ==> encode_utf8(s.take(n as int)).len() <= limit
        }),
    decreases n,
{
    if n == 0 {
        assert(s.take(0) =~= Seq::<char>::empty());
    } else if text::byte_len(s.take(n as int)) > limit {
        lemma_fitting_is_longest(s, (n - 1) as nat, limit);
    }
}

/// The error for a breach of the protocol.
pub fn protocol_error(message: &str) -> (error: HarnessServerError)
    ensures
        error@ == protocol_fault(message@),
{
    HarnessServerError::Protocol(concat("OMP protocol error: ", message))
}

impl HarnessServerError {
    /// The text that stands for this error in reports.
    pub open spec fn spec_message(error: ErrorView) -> Seq<char> {
        match error {
            ErrorView::Protocol(message) => message,
            ErrorView::Io(message) => message,
            ErrorView::Json(message) => message,
            ErrorView::HarnessExited { kind, status, stderr } => "omp exited with "@ + status
                + stderr,
        }
    }

    /// The text that stands for this error in reports.
    pub fn message(&self) -> (text: String)
        ensures
            text@ == Self::spec_message(self@),
    {
        match self {
            HarnessServerError::Protocol(message) => message.clone(),
            HarnessServerError::Io(message) => message.clone(),
            HarnessServerError::Json(message) => message.clone(),
            HarnessServerError::HarnessExited { kind: _, status, stderr } => concat3(
                "omp exited with ",
                status.as_str(),
                stderr.as_str(),
            ),
        }
    }
}

} // verus!
