//! URL patterns: matchers over URLs that yield named captures.
//!
//! Compiling and matching are the work of the `urlpattern` crate. A pattern
//! of this module is the text it is written in; the crate is asked anew to
//! compile it wherever it is matched, so that what a match returns depends
//! on the pattern text and the URL alone.
//!
//! Not every text is handed to the crate, for it stops the process on
//! some:
//!
//! - Its constructor-string parser counts characters where it slices
//!   bytes, and fails on texts in which the two differ.
//! - Its path canonicaliser puts a two-byte marker in front of a piece of
//!   literal path, lets the URL parser normalise the whole, and cuts two
//!   bytes off the result; where the piece holds a `..` segment the marker
//!   is gone by then.
//! - Its constructor-string parser counts the square brackets of the host
//!   down at a `]` without asking whether a `[` was counted up before.
//!
//! A text that is not ASCII, in which two dots can come to stand side by
//! side, or in which a `]` closes no `[` of an address, is therefore
//! refused here as one that does not compile (see [`pattern_safe`]).

use vstd::prelude::*;
use vstd::utf8::is_ascii_chars;
use crate::address::{Url, url_parsed};
use crate::text::chars_of;
use crate::variables::{Variables, bindings_map};

verus! {

#[verifier::external_type_specification]
#[verifier::external_body]
pub struct ExPatternFailure(urlpattern::Error);

/// What a scan for dots that can meet remembers of the text behind it.
#[derive(Clone, Copy, Debug)]
pub enum DotScan {
    /// Nothing that matters.
    Plain,
    /// A dot.
    Dot,
    /// A percent sign.
    Percent,
    /// A percent sign and the digit 2: one `e` short of an encoded dot.
    PercentTwo,
}

/// What the scan remembers once it has read `c`, or `None` where `c` shows
/// that the text is not safe.
///
/// A backslash and the two braces change nothing: the pattern syntax takes
/// them out, so that what stands on their two sides comes to stand side by
/// side. A tab or a line break is not safe, because the URL parser takes
/// them out too. A second dot behind a dot is not safe, and neither is an
/// encoded dot, `%2e` or `%2E`.
pub open spec fn dot_scan_step(state: DotScan, c: char) -> Option<DotScan> {
    if c == '\t' || c == '\n' || c == '\r' {
        None
    } else if c == '\\' || c == '{' || c == '}' {
        Some(state)
    } else if c == '.' {
        if state is Dot {
            None
        } else {
            Some(DotScan::Dot)
        }
    } else if c == '%' {
        Some(DotScan::Percent)
    } else if c == '2' && state is Percent {
        Some(DotScan::PercentTwo)
    } else if (c == 'e' || c == 'E') && state is PercentTwo {
        None
    } else {
        Some(DotScan::Plain)
    }
}

/// What the scan remembers once it has read the first `n` characters of
/// `s`, or `None` where they show that the text is not safe.
pub open spec fn dot_scan(s: Seq<char>, n: int) -> Option<DotScan>
    decreases n,
{
    if n <= 0 {
        Some(DotScan::Plain)
    } else {
        match dot_scan(s, n - 1) {
            None => None,
            Some(state) => dot_scan_step(state, s[n - 1]),
        }
    }
}

/// Whether `c` can stand between the square brackets of an address: a
/// hexadecimal digit, a colon, a dot, or the backslash that the pattern
/// syntax wants in front of a colon.
pub open spec fn is_address_char(c: char) -> bool {
    ||| '0' <= c <= '9'
    ||| 'a' <= c <= 'f'
    ||| 'A' <= c <= 'F'
    ||| c == ':'
    ||| c == '.'
    ||| c == '\\'
}

/// What a scan for brackets remembers once it has read `c`: whether a `[`
/// stands open, with nothing but characters of an address behind it. `None`
/// where `c` is a `]` that closes no such `[`.
pub open spec fn bracket_scan_step(open: bool, c: char) -> Option<bool> {
    if c == '[' {
        Some(true)
    } else if c == ']' {
        if open {
            Some(false)
        } else {
            None
        }
    } else if is_address_char(c) {
        Some(open)
    } else {
        Some(false)
    }
}

/// What the scan for brackets remembers once it has read the first `n`
/// characters of `s`, or `None` where they hold a `]` that closes no `[`
/// of an address.
pub open spec fn bracket_scan(s: Seq<char>, n: int) -> Option<bool>
    decreases n,
{
    if n <= 0 {
        Some(false)
    } else {
        match bracket_scan(s, n - 1) {
            None => None,
            Some(open) => bracket_scan_step(open, s[n - 1]),
        }
    }
}

/// Whether `source` can be handed to the pattern crate:
///
/// - it is ASCII;
/// - no piece of literal text that the crate makes of it can hold two dots
///   side by side;
/// - every `]` closes a `[`, with nothing between the two but hexadecimal
///   digits, colons, dots and backslashes, so that the crate counts the `[`
///   wherever it counts the `]`.
///
/// This refuses more than it must: two dots in a row are refused wherever
/// they stand, and so is a `]` outside the host.
pub open spec fn pattern_safe(source: Seq<char>) -> bool {
    &&& is_ascii_chars(source)
    &&& dot_scan(source, source.len() as int) is Some
    &&& bracket_scan(source, source.len() as int) is Some
}

/// Whether `urlpattern` accepts the text `source`, which is safe to hand to
/// it, as a constructor string without a base URL and compiles the pattern
/// that it describes.
pub uninterp spec fn pattern_compiles(source: Seq<char>) -> bool;

/// Whether `source` makes a pattern: it is safe to hand to the pattern
/// crate, and it compiles.
pub open spec fn pattern_accepted(source: Seq<char>) -> bool {
    pattern_safe(source) && pattern_compiles(source)
}

fn dot_scan_next(state: DotScan, c: char) -> (res: Option<DotScan>)
    ensures
        res == dot_scan_step(state, c),
{
    if c == '\t' || c == '\n' || c == '\r' {
        None
    } else if c == '\\' || c == '{' || c == '}' {
        Some(state)
    } else if c == '.' {
        match state {
            DotScan::Dot => None,
            _ => Some(DotScan::Dot),
        }
    } else if c == '%' {
        Some(DotScan::Percent)
    } else if c == '2' {
        match state {
            DotScan::Percent => Some(DotScan::PercentTwo),
            _ => Some(DotScan::Plain),
        }
    } else if c == 'e' || c == 'E' {
        match state {
            DotScan::PercentTwo => None,
            _ => Some(DotScan::Plain),
        }
    } else {
        Some(DotScan::Plain)
    }
}

fn dots_cannot_meet(chars: &Vec<char>) -> (res: bool)
    ensures
        res == dot_scan(chars@, chars@.len() as int) is Some,
{
    let mut state = DotScan::Plain;
    let mut i: usize = 0;
    while i < chars.len()
        invariant
            i <= chars@.len(),
            dot_scan(chars@, i as int) == Some(state),
        decreases chars@.len() - i,
    {
        match dot_scan_next(state, chars[i]) {
            None => {
                proof {
                    assert(dot_scan(chars@, i + 1) is None);
                    lemma_dot_scan_stays_unsafe(chars@, i + 1, chars@.len() as int);
                }
                return false;
            },
            Some(next) => {
                state = next;
            },
        }
        i += 1;
    }
    true
}

fn is_address(c: char) -> (res: bool)
    ensures
        res == is_address_char(c),
{
    ('0' <= c && c <= '9') || ('a' <= c && c <= 'f') || ('A' <= c && c <= 'F') || c == ':' || c == '.'
        || c == '\\'
}

fn brackets_close_addresses(chars: &Vec<char>) -> (res: bool)
    ensures
        res == bracket_scan(chars@, chars@.len() as int) is Some,
{
    let mut open = false;
    let mut i: usize = 0;
    while i < chars.len()
        invariant
            i <= chars@.len(),
            bracket_scan(chars@, i as int) == Some(open),
        decreases chars@.len() - i,
    {
        let c = chars[i];
        if c == '[' {
            open = true;
        } else if c == ']' {
            if !open {
                proof {
                    assert(bracket_scan(chars@, i + 1) is None);
                    lemma_bracket_scan_stays_unsafe(chars@, i + 1, chars@.len() as int);
                }
                return false;
            }
            open = false;
        } else if !is_address(c) {
            open = false;
        }
        i += 1;
    }
    true
}

/// Whether `text` can be handed to the pattern crate.
pub fn is_safe_pattern(text: &str) -> (res: bool)
    ensures
        res == pattern_safe(text@),
{
    if !text.is_ascii() {
        return false;
    }
    let chars = chars_of(text);
    dots_cannot_meet(&chars) && brackets_close_addresses(&chars)
}

/// Once a text has shown itself not safe, no longer text makes it safe.
pub proof fn lemma_dot_scan_stays_unsafe(s: Seq<char>, n: int, m: int)
    requires
        0 <= n <= m,
        dot_scan(s, n) is None,
    ensures
        dot_scan(s, m) is None,
    decreases m - n,
{
    if n < m {
        lemma_dot_scan_stays_unsafe(s, n, m - 1);
    }
}

/// Once a `]` has closed nothing, no longer text mends it.
pub proof fn lemma_bracket_scan_stays_unsafe(s: Seq<char>, n: int, m: int)
    requires
        0 <= n <= m,
        bracket_scan(s, n) is None,
    ensures
        bracket_scan(s, m) is None,
    decreases m - n,
{
    if n < m {
        lemma_bracket_scan_stays_unsafe(s, n, m - 1);
    }
}

/// What `UrlPattern::test` returns for the pattern written `source` on the
/// URL serialised as `url`; `None` where the pattern does not compile, the
/// URL does not parse, or the match itself reports an error.
pub uninterp spec fn pattern_test(source: Seq<char>, url: Seq<char>) -> Option<bool>;

/// What `UrlPattern::exec` returns for the pattern written `source` on the
/// URL serialised as `url`: the named groups of the path and of the query
/// where the pattern matches, `Some(None)` where it does not, and `None`
/// where the pattern does not compile, the URL does not parse, or the match
/// itself reports an error.
pub uninterp spec fn pattern_exec(source: Seq<char>, url: Seq<char>) -> Option<Option<CapturesView>>;

/// The named groups of a successful match.
#[derive(Debug)]
pub struct Captures {
    /// The groups of the path component, in no particular order.
    pub path: Vec<(String, String)>,
    /// The groups of the query component, in no particular order.
    pub query: Vec<(String, String)>,
}

/// The mathematical content of [`Captures`].
pub struct CapturesView {
    pub path: Map<Seq<char>, Seq<char>>,
    pub query: Map<Seq<char>, Seq<char>>,
}

impl View for Captures {
    type V = CapturesView;

    open spec fn view(&self) -> CapturesView {
        CapturesView { path: bindings_map(self.path@), query: bindings_map(self.query@) }
    }
}

/// Calls `UrlPatternInit::parse_constructor_string` without a base URL and
/// `UrlPattern::parse` on what it returns. The contract names whether both
/// succeed (`pattern_compiles`) and claims nothing more. It is for safe
/// texts only, on which the two calls are taken to return.
#[verifier::external_body]
fn compile(source: &str) -> (res: Result<(), urlpattern::Error>)
    requires
        pattern_safe(source@),
    ensures
        res is Ok <==> pattern_compiles(source@),
{
    let init = urlpattern::UrlPatternInit::parse_constructor_string::<regex::Regex>(source, None)?;
    urlpattern::UrlPattern::<regex::Regex>::parse(init)?;
    Ok(())
}

/// Compiles `source`, parses `url` and calls `UrlPattern::test` on the two.
/// The contract names the outcome (`pattern_test`). It is for texts that
/// make a pattern; with these the call fails exactly where `url` does not
/// parse, since a match on a parsed URL reports no error.
#[verifier::external_body]
fn run_test(source: &str, url: &str) -> (res: Result<bool, urlpattern::Error>)
    requires
        pattern_accepted(source@),
    ensures
        match res {
            Ok(found) => pattern_test(source@, url@) == Some(found),
            Err(_) => pattern_test(source@, url@) is None,
        },
        res is Ok <==> url_parsed(url@) is Some,
{
    let init = urlpattern::UrlPatternInit::parse_constructor_string::<regex::Regex>(source, None)?;
    let compiled = urlpattern::UrlPattern::<regex::Regex>::parse(init)?;
    let input = url::Url::parse(url).map_err(urlpattern::Error::Url)?;
    compiled.test(urlpattern::UrlPatternMatchInput::Url(input))
}

/// Compiles `source`, parses `url` and calls `UrlPattern::exec` on the two,
/// copying the path and query groups out of a match. The groups come out of
/// hash maps, so their order is not fixed; the contract names the maps that
/// they denote (`pattern_exec`). It is for texts that make a pattern; with
/// these the call fails exactly where `url` does not parse, since a match
/// on a parsed URL reports no error.
#[verifier::external_body]
fn run_exec(source: &str, url: &str) -> (res: Result<Option<Captures>, urlpattern::Error>)
    requires
        pattern_accepted(source@),
    ensures
        match res {
            Ok(Some(captures)) => pattern_exec(source@, url@) == Some(Some(captures@)),
            Ok(None) => pattern_exec(source@, url@) == Some(None::<CapturesView>),
            Err(_) => pattern_exec(source@, url@) is None,
        },
        res is Ok <==> url_parsed(url@) is Some,
{
    let init = urlpattern::UrlPatternInit::parse_constructor_string::<regex::Regex>(source, None)?;
    let compiled = urlpattern::UrlPattern::<regex::Regex>::parse(init)?;
    let input = url::Url::parse(url).map_err(urlpattern::Error::Url)?;
    let found = compiled.exec(urlpattern::UrlPatternMatchInput::Url(input))?;
    Ok(found.map(|groups| Captures {
        path: groups.pathname.groups.into_iter().collect(),
        query: groups.search.groups.into_iter().collect(),
    }))
}

/// Why a pattern could not be used.
#[derive(Debug)]
pub enum PatternError {
    /// The pattern text does not compile.
    Compile { pattern: String },
    /// The pattern could not be run against the URL.
    Match { pattern: String, url: String },
}

/// The mathematical content of a [`PatternError`].
pub enum PatternErrorView {
    Compile { pattern: Seq<char> },
    Match { pattern: Seq<char>, url: Seq<char> },
}

impl View for PatternError {
    type V = PatternErrorView;

    open spec fn view(&self) -> PatternErrorView {
        match self {
            PatternError::Compile { pattern } => PatternErrorView::Compile { pattern: pattern@ },
            PatternError::Match { pattern, url } => PatternErrorView::Match { pattern: pattern@, url: url@ },
        }
    }
}

/// A compiled URL pattern.
#[derive(Debug)]
pub struct UrlPattern {
    source: String,
}

impl View for UrlPattern {
    type V = Seq<char>;

    /// The text that the pattern was compiled from.
    closed spec fn view(&self) -> Seq<char> {
        self.source@
    }
}

/// Compiles a pattern text; `Err` exactly where the text is not safe to
/// hand to the pattern crate or does not compile.
pub fn url_pattern(input: String) -> (res: Result<UrlPattern, PatternError>)
    ensures
        match res {
            Ok(pattern) => pattern_accepted(input@) && pattern@ == input@,
            Err(error) => !pattern_accepted(input@) && error@ == (PatternErrorView::Compile {
                pattern: input@,
            }),
        },
{
    if !is_safe_pattern(input.as_str()) {
        return Err(PatternError::Compile { pattern: input });
    }
    match compile(input.as_str()) {
        Ok(()) => Ok(UrlPattern { source: input }),
        Err(_) => Err(PatternError::Compile { pattern: input }),
    }
}

/// The outcome of [`UrlPattern::test`] in mathematical terms.
pub open spec fn test_outcome(pattern: Seq<char>, url: Seq<char>) -> Result<bool, PatternErrorView> {
    match pattern_test(pattern, url) {
        Some(found) => Ok(found),
        None => Err(PatternErrorView::Match { pattern, url }),
    }
}

/// The outcome of [`UrlPattern::exec`] in mathematical terms.
pub open spec fn exec_outcome(pattern: Seq<char>, url: Seq<char>) -> Result<
    Option<CapturesView>,
    PatternErrorView,
> {
    match pattern_exec(pattern, url) {
        Some(found) => Ok(found),
        None => Err(PatternErrorView::Match { pattern, url }),
    }
}

/// The mathematical content of what [`UrlPattern::test`] returns.
pub open spec fn tested_view(res: Result<bool, PatternError>) -> Result<bool, PatternErrorView> {
    match res {
        Ok(found) => Ok(found),
        Err(error) => Err(error@),
    }
}

/// The mathematical content of what [`UrlPattern::exec`] returns.
pub open spec fn executed_view(res: Result<Option<Captures>, PatternError>) -> Result<
    Option<CapturesView>,
    PatternErrorView,
> {
    match res {
        Ok(Some(captures)) => Ok(Some(captures@)),
        Ok(None) => Ok(None),
        Err(error) => Err(error@),
    }
}

impl UrlPattern {
    /// A pattern is made of a safe text that compiles, and of no other.
    #[verifier::type_invariant]
    spec fn compiled(&self) -> bool {
        pattern_accepted(self.source@)
    }

    /// The text that the pattern was compiled from.
    pub fn as_str(&self) -> (res: &str)
        ensures
            res@ == self@,
            pattern_accepted(res@),
    {
        proof {
            use_type_invariant(self);
        }
        self.source.as_str()
    }

    /// Whether the pattern matches `url`. A pattern can be run against
    /// every URL: the result is never an error.
    pub fn test(&self, url: &Url) -> (res: Result<bool, PatternError>)
        ensures
            tested_view(res) == test_outcome(self@, url@.href),
            res is Ok,
    {
        proof {
            use_type_invariant(self);
        }
        match run_test(self.source.as_str(), url.as_str()) {
            Ok(found) => Ok(found),
            Err(_) => Err(PatternError::Match { pattern: self.source.clone(), url: url.as_str().to_owned() }),
        }
    }

    /// The named groups that the pattern captures from `url`, or `None`
    /// where it does not match. A pattern can be run against every URL: the
    /// result is never an error.
    pub fn exec(&self, url: &Url) -> (res: Result<Option<Captures>, PatternError>)
        ensures
            executed_view(res) == exec_outcome(self@, url@.href),
            res is Ok,
    {
        proof {
            use_type_invariant(self);
        }
        match run_exec(self.source.as_str(), url.as_str()) {
            Ok(found) => Ok(found),
            Err(_) => Err(PatternError::Match { pattern: self.source.clone(), url: url.as_str().to_owned() }),
        }
    }
}

/// The variable map that a match hands to a template: every path group,
/// overridden by the query group of the same name where there is one.
pub open spec fn merged(captures: CapturesView) -> Map<Seq<char>, Seq<char>> {
    captures.path.union_prefer_right(captures.query)
}

/// Binds every pair of `pairs` in turn, so that the map they denote
/// overrides what `variables` held before.
fn bind_all(variables: &mut Variables, pairs: &Vec<(String, String)>)
    ensures
        final(variables)@ == old(variables)@.union_prefer_right(bindings_map(pairs@)),
{
    let ghost base = variables@;
    let mut i: usize = 0;
    proof {
        assert(pairs@.take(0) =~= Seq::<(String, String)>::empty());
        assert(base.union_prefer_right(bindings_map(pairs@.take(0))) =~= base);
    }
    while i < pairs.len()
        invariant
            i <= pairs@.len(),
            variables@ == base.union_prefer_right(bindings_map(pairs@.take(i as int))),
        decreases pairs@.len() - i,
    {
        let name = pairs[i].0.clone();
        let value = pairs[i].1.clone();
        proof {
            let bound = bindings_map(pairs@.take(i as int));
            assert(pairs@.take(i + 1).drop_last() =~= pairs@.take(i as int));
            assert(pairs@.take(i + 1).last() == pairs@[i as int]);
            assert(base.union_prefer_right(bound.insert(name@, value@)) =~= base.union_prefer_right(
                bound,
            ).insert(name@, value@));
        }
        variables.insert(name, value);
        i += 1;
    }
    proof {
        assert(pairs@.take(i as int) =~= pairs@);
    }
}

impl Captures {
    /// Merges the captures into one variable map; a query group overrides
    /// the path group of the same name.
    pub fn to_variables(&self) -> (res: Variables)
        ensures
            res@ == merged(self@),
    {
        let mut variables = Variables::new();
        bind_all(&mut variables, &self.path);
        bind_all(&mut variables, &self.query);
        proof {
            assert(Map::<Seq<char>, Seq<char>>::empty().union_prefer_right(bindings_map(self.path@))
                =~= bindings_map(self.path@));
        }
        variables
    }
}

} // verus!
