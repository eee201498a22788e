pub mod frame;

use pulldown_cmark::{html, Event, Options, Parser};
use vstd::prelude::*;

verus! {

#[verifier::external_type_specification]
#[verifier::external_body]
pub struct ExEvent<'a>(Event<'a>);

/// One event of the parsed document, with line breaks told apart from the rest.
pub enum Token<'a> {
    SoftBreak,
    HardBreak,
    Other(Event<'a>),
}

/// What the editor does with one event: a soft break becomes a hard break.
pub open spec fn promoted<'a>(t: Token<'a>) -> Token<'a> {
    match t {
        Token::SoftBreak => Token::HardBreak,
        _ => t,
    }
}

/// Replaces every soft line break by a hard one and leaves every other event as it is.
pub fn promote_soft_breaks<'a>(tokens: &mut Vec<Token<'a>>)
    ensures
        final(tokens)@.len() == old(tokens)@.len(),
        forall|i: int|
            0 <= i < old(tokens)@.len() ==> #[trigger] final(tokens)@[i] == promoted(old(tokens)@[i]),
{
    let n = tokens.len();
    let mut i: usize = 0;
    while i < n
        invariant
            n == old(tokens)@.len(),
            tokens@.len() == n,
            i <= n,
            forall|j: int| 0 <= j < i ==> #[trigger] tokens@[j] == promoted(old(tokens)@[j]),
            forall|j: int| i <= j < n ==> #[trigger] tokens@[j] == old(tokens)@[j],
        decreases n - i,
    {
        let soft = match &tokens[i] {
            Token::SoftBreak => true,
            _ => false,
        };
        if soft {
            tokens.set(i, Token::HardBreak);
        }
        i = i + 1;
    }
}

/// pulldown-cmark's flag word bit for tables.
pub const ENABLE_TABLES: u32 = 2;

/// pulldown-cmark's flag word bit for footnotes.
pub const ENABLE_FOOTNOTES: u32 = 4;

/// pulldown-cmark's flag word bit for strikethrough.
pub const ENABLE_STRIKETHROUGH: u32 = 8;

/// pulldown-cmark's flag word bit for task lists.
pub const ENABLE_TASKLISTS: u32 = 16;

/// pulldown-cmark's flag word bit for smart punctuation.
pub const ENABLE_SMART_PUNCTUATION: u32 = 32;

/// pulldown-cmark's flag word bit for heading attributes.
pub const ENABLE_HEADING_ATTRIBUTES: u32 = 64;

/// The editor's extensions: footnotes, heading attributes, smart punctuation,
/// strikethrough, tables and task lists, all six switched on.
pub const EDITOR_OPTIONS: u32 = ENABLE_FOOTNOTES + ENABLE_HEADING_ATTRIBUTES
    + ENABLE_SMART_PUNCTUATION + ENABLE_STRIKETHROUGH + ENABLE_TABLES + ENABLE_TASKLISTS;

/// The events pulldown-cmark parses from `source` under the flag word `options`.
pub uninterp spec fn events_of(options: u32, source: Seq<char>) -> Seq<Token<'static>>;

/// The HTML pulldown-cmark writes for the events `tokens`.
pub uninterp spec fn html_of(tokens: Seq<Token<'static>>) -> Seq<char>;

/// Relies on pulldown_cmark::Parser::new_ext, with the options of the flag word
/// taken by Options::from_bits_truncate: the events depend on the source and the
/// options alone. Each event becomes the token of its kind (the break events) or
/// is carried in `Token::Other`. An empty source gives no event.
#[verifier::external_body]
fn parse_tokens<'a>(source: &'a str, options: u32) -> (r: Vec<Token<'a>>)
    ensures
        r@ == events_of(options, source@),
        source@.len() == 0 ==> r@.len() == 0,
{
    let mut r = Vec::new();
    for e in Parser::new_ext(source, Options::from_bits_truncate(options)) {
        r.push(match e {
            Event::SoftBreak => Token::SoftBreak,
            Event::HardBreak => Token::HardBreak,
            e => Token::Other(e),
        });
    }
    r
}

/// Relies on pulldown_cmark::html::push_html, writing into a fresh string: the
/// HTML depends on the events alone, and no event writes nothing.
#[verifier::external_body]
fn write_html<'a>(tokens: Vec<Token<'a>>) -> (r: String)
    ensures
        r@ == html_of(tokens@),
        tokens@.len() == 0 ==> r@.len() == 0,
{
    let mut events = Vec::new();
    for t in tokens {
        events.push(match t {
            Token::SoftBreak => Event::SoftBreak,
            Token::HardBreak => Event::HardBreak,
            Token::Other(e) => e,
        });
    }
    let mut out = String::new();
    html::push_html(&mut out, events.into_iter());
    out
}

/// Every event of `ts` with its soft breaks made hard.
pub open spec fn promoted_all(ts: Seq<Token<'static>>) -> Seq<Token<'static>> {
    ts.map_values(|t: Token<'static>| promoted(t))
}

/// The editor's HTML for `source`: the events parsed with the editor's
/// extensions, every soft break made hard, written out.
pub open spec fn converted(source: Seq<char>) -> Seq<char> {
    html_of(promoted_all(events_of(EDITOR_OPTIONS, source)))
}

/// Converts markdown to HTML with the editor's extensions, every soft line break
/// rendered as a hard one. It never fails; an empty source gives empty HTML.
pub fn convert(source: &str) -> (r: String)
    ensures
        r@ == converted(source@),
        source@.len() == 0 ==> r@.len() == 0,
{
    let mut tokens = parse_tokens(source, EDITOR_OPTIONS);
    let ghost parsed = tokens@;
    promote_soft_breaks(&mut tokens);
    assert(tokens@ =~= promoted_all(parsed));
    write_html(tokens)
}

/// Conversion is a function of the source: equal texts give equal HTML, and the
/// stream handed to the writer holds no soft break.
pub proof fn lemma_convert_deterministic(a: Seq<char>, b: Seq<char>)
    requires
        a == b,
    ensures
        converted(a) == converted(b),
        forall|i: int|
            0 <= i < events_of(EDITOR_OPTIONS, a).len() ==> !(#[trigger] promoted_all(
                events_of(EDITOR_OPTIONS, a),
            )[i] is SoftBreak),
{
}

/// The probe value: `fib_value(0) == fib_value(1) == 1`, then each is the sum of the two before.
pub open spec fn fib_value(n: nat) -> nat
    decreases n,
{
    if n <= 1 {
        1
    } else {
        fib_value((n - 1) as nat) + fib_value((n - 2) as nat)
    }
}

/// The largest probe argument whose value fits in `u32`.
pub const FIB_MAX: u32 = 46;

/// The probe values grow with the argument.
pub proof fn lemma_fib_monotone(m: nat, n: nat)
    requires
        m <= n,
    ensures
        fib_value(m) <= fib_value(n),
    decreases n - m,
{
    if m < n {
        lemma_fib_monotone(m, (n - 1) as nat);
    }
}

/// Every probe value up to `FIB_MAX` fits in `u32`.
pub proof fn lemma_fib_fits(n: nat)
    requires
        n <= FIB_MAX,
    ensures
        fib_value(n) <= 2971215073,
{
    reveal_with_fuel(fib_value, 2);
    assert(fib_value(2) == 2);
    assert(fib_value(3) == 3);
    assert(fib_value(4) == 5);
    assert(fib_value(5) == 8);
    assert(fib_value(6) == 13);
    assert(fib_value(7) == 21);
    assert(fib_value(8) == 34);
    assert(fib_value(9) == 55);
    assert(fib_value(10) == 89);
    assert(fib_value(11) == 144);
    assert(fib_value(12) == 233);
    assert(fib_value(13) == 377);
    assert(fib_value(14) == 610);
    assert(fib_value(15) == 987);
    assert(fib_value(16) == 1597);
    assert(fib_value(17) == 2584);
    assert(fib_value(18) == 4181);
    assert(fib_value(19) == 6765);
    assert(fib_value(20) == 10946);
    assert(fib_value(21) == 17711);
    assert(fib_value(22) == 28657);
    assert(fib_value(23) == 46368);
    assert(fib_value(24) == 75025);
    assert(fib_value(25) == 121393);
    assert(fib_value(26) == 196418);
    assert(fib_value(27) == 317811);
    assert(fib_value(28) == 514229);
    assert(fib_value(29) == 832040);
    assert(fib_value(30) == 1346269);
    assert(fib_value(31) == 2178309);
    assert(fib_value(32) == 3524578);
    assert(fib_value(33) == 5702887);
    assert(fib_value(34) == 9227465);
    assert(fib_value(35) == 14930352);
    assert(fib_value(36) == 24157817);
    assert(fib_value(37) == 39088169);
    assert(fib_value(38) == 63245986);
    assert(fib_value(39) == 102334155);
    assert(fib_value(40) == 165580141);
    assert(fib_value(41) == 267914296);
    assert(fib_value(42) == 433494437);
    assert(fib_value(43) == 701408733);
    assert(fib_value(44) == 1134903170);
    assert(fib_value(45) == 1836311903);
    assert(fib_value(46) == 2971215073);
    lemma_fib_monotone(n, 46);
}

/// The probe value `fib_value(n)`, for `n` up to `FIB_MAX`, where it fits in `u32`.
pub fn fib(n: u32) -> (r: u32)
    requires
        n <= FIB_MAX,
    ensures
        r == fib_value(n as nat),
{
    if n == 0 {
        return 1;
    }
    let mut prev: u32 = 1;
    let mut cur: u32 = 1;
    let mut i: u32 = 1;
    while i < n
        invariant
            1 <= i <= n <= FIB_MAX,
            prev == fib_value((i - 1) as nat),
            cur == fib_value(i as nat),
        decreases n - i,
    {
        proof {
            assert(fib_value((i + 1) as nat) == fib_value(i as nat) + fib_value((i - 1) as nat));
            lemma_fib_fits((i + 1) as nat);
        }
        let next = prev + cur;
        prev = cur;
        cur = next;
        i = i + 1;
    }
    cur
}

/// A request to the conversion worker.
pub enum MarkdownInput {
    /// A liveness probe: compute `fib_value(n)`, for `n` up to `FIB_MAX`.
    N(u32),
    /// Convert this markdown text to HTML.
    Content(String),
}

/// A reply of the conversion worker.
pub enum MarkdownOutput {
    Value(u32),
    Html(String),
}

/// The conversion worker. Each reply goes back to the handler that sent the request.
pub struct Markdown {}

impl Markdown {
    pub fn create() -> Markdown {
        Markdown {}
    }

    /// The script the worker is loaded from.
    pub fn name_of_resource() -> (r: &'static str)
        ensures
            r@ == "markdown.js"@,
    {
        "markdown.js"
    }

    /// Answers one request, tagged with the id of the handler that sent it. A
    /// probe asks for at most `FIB_MAX`.
    pub fn handle_input<H>(&mut self, msg: MarkdownInput, id: H) -> (r: (H, MarkdownOutput))
        requires
            msg matches MarkdownInput::N(n) ==> n <= FIB_MAX,
        ensures
            r.0 == id,
            match msg {
                MarkdownInput::N(n) => r.1 == MarkdownOutput::Value(fib_value(n as nat) as u32),
                MarkdownInput::Content(s) => r.1 matches MarkdownOutput::Html(h) && h@ == converted(
                    s@,
                ),
            },
    {
        match msg {
            MarkdownInput::N(n) => (id, MarkdownOutput::Value(fib(n))),
            MarkdownInput::Content(content) => (id, MarkdownOutput::Html(convert(content.as_str()))),
        }
    }
}

} // verus!
