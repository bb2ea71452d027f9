//! URL templates: literal text interleaved with `{variable}` references.
//!
//! Inside the braces a reference reads `[/]<name>[:<default>][?]`. A leading
//! `/` asks for a slash in front of whatever the reference produces, a
//! trailing `?` makes the reference optional, and the text behind the first
//! `:` is the value used when an optional variable is absent. What is left
//! is the name, which must not be empty.

use vstd::prelude::*;
use crate::address::{Url, UrlView, url_of};
use crate::text::{chars_of, find_char, find_from, lemma_find_char};
use crate::variables::Variables;

verus! {

/// A variable reference of a template.
#[derive(Debug)]
pub struct Variable {
    pub name: String,
    pub default_value: Option<String>,
    pub is_optional: bool,
    pub leading_slash: bool,
}

/// The mathematical content of a [`Variable`].
pub struct VariableView {
    pub name: Seq<char>,
    pub default_value: Option<Seq<char>>,
    pub is_optional: bool,
    pub leading_slash: bool,
}

impl View for Variable {
    type V = VariableView;

    open spec fn view(&self) -> VariableView {
        VariableView {
            name: self.name@,
            default_value: match self.default_value {
                Some(text) => Some(text@),
                None => None,
            },
            is_optional: self.is_optional,
            leading_slash: self.leading_slash,
        }
    }
}

/// What the text between a pair of braces denotes, or `None` where it
/// leaves the variable without a name.
pub open spec fn parse_variable(s: Seq<char>) -> Option<VariableView> {
    let leading_slash = s.len() > 0 && s[0] == '/';
    let unslashed = if leading_slash { s.skip(1) } else { s };
    let is_optional = unslashed.len() > 0 && unslashed.last() == '?';
    let body = if is_optional { unslashed.drop_last() } else { unslashed };
    let (name, default_value) = match find_char(body, ':', 0) {
        Some(colon) => (body.take(colon), Some(body.skip(colon + 1))),
        None => (body, None),
    };
    if name.len() == 0 {
        None
    } else {
        Some(VariableView { name, default_value, is_optional, leading_slash })
    }
}

impl Variable {
    /// Reads a variable reference from the text between a pair of braces.
    /// A reference that names no variable is refused.
    pub fn parse(value: String) -> (res: Option<Variable>)
        ensures
            match res {
                Some(variable) => parse_variable(value@) == Some(variable@),
                None => parse_variable(value@) is None,
            },
    {
        let whole = value.as_str();
        let whole_len = whole.unicode_len();
        let leading_slash = whole_len > 0 && whole.get_char(0) == '/';
        let unslashed = if leading_slash { whole.substring_char(1, whole_len) } else { whole };
        let unslashed_len = unslashed.unicode_len();
        let is_optional = unslashed_len > 0 && unslashed.get_char(unslashed_len - 1) == '?';
        let body = if is_optional { unslashed.substring_char(0, unslashed_len - 1) } else { unslashed };
        let body_chars = chars_of(body);
        let body_len = body_chars.len();
        let (name, default_value) = match find_from(&body_chars, ':', 0) {
            Some(colon) => {
                proof {
                    lemma_find_char(body@, ':', 0);
                }
                (
                    body.substring_char(0, colon).to_owned(),
                    Some(body.substring_char(colon + 1, body_len).to_owned()),
                )
            },
            None => (body.to_owned(), None),
        };
        if name.as_str().unicode_len() == 0 {
            None
        } else {
            Some(Variable { name, default_value, is_optional, leading_slash })
        }
    }
}

/// One segment of a template.
#[derive(Debug)]
pub enum Component {
    Literal(String),
    Variable(Variable),
}

/// The mathematical content of a [`Component`].
pub enum ComponentView {
    Literal(Seq<char>),
    Variable(VariableView),
}

impl View for Component {
    type V = ComponentView;

    open spec fn view(&self) -> ComponentView {
        match self {
            Component::Literal(text) => ComponentView::Literal(text@),
            Component::Variable(variable) => ComponentView::Variable(variable@),
        }
    }
}

/// The literal segment `s[from..to]`, or nothing where it would be empty.
pub open spec fn literal_between(s: Seq<char>, from: int, to: int) -> Seq<ComponentView> {
    if from < to {
        seq![ComponentView::Literal(s.subrange(from, to))]
    } else {
        Seq::empty()
    }
}

/// What is wrong with a template text.
#[derive(Clone, Copy, Debug, PartialEq, Eq, Structural)]
pub enum TemplateFault {
    /// A `{` has no `}` behind it.
    UnclosedBrace,
    /// A pair of braces names no variable.
    EmptyName,
}

/// The segments denoted by `s[pos..]`, or what is wrong with the first
/// reference that is not well-formed: its `{` has no `}` behind it, or it
/// names no variable.
pub open spec fn parse_from(s: Seq<char>, pos: int) -> Result<Seq<ComponentView>, TemplateFault>
    decreases s.len() - pos,
{
    if pos < 0 || pos >= s.len() {
        Ok(Seq::empty())
    } else {
        match find_char(s, '{', pos) {
            None => Ok(literal_between(s, pos, s.len() as int)),
            Some(open) => match find_char(s, '}', open + 1) {
                None => Err(TemplateFault::UnclosedBrace),
                Some(close) => match parse_variable(s.subrange(open + 1, close)) {
                    None => Err(TemplateFault::EmptyName),
                    Some(variable) => {
                        proof {
                            lemma_find_char(s, '{', pos);
                            lemma_find_char(s, '}', open + 1);
                        }
                        match parse_from(s, close + 1) {
                            Err(fault) => Err(fault),
                            Ok(rest) => Ok(
                                literal_between(s, pos, open) + seq![ComponentView::Variable(variable)]
                                    + rest,
                            ),
                        }
                    },
                },
            },
        }
    }
}

/// The segments that a template text denotes, or what is wrong with it.
pub open spec fn parse_template(s: Seq<char>) -> Result<Seq<ComponentView>, TemplateFault> {
    parse_from(s, 0)
}

/// Whether every variable among the segments has a name.
pub open spec fn all_named(components: Seq<ComponentView>) -> bool {
    forall|i: int|
        0 <= i < components.len() ==> ((#[trigger] components[i]) is Variable
            ==> components[i]->Variable_0.name.len() > 0)
}

/// Why a template text was refused.
#[derive(Debug)]
pub struct TemplateError {
    /// The template text as it was given.
    pub template: String,
    /// What is wrong with it.
    pub fault: TemplateFault,
}

/// The text of the error raised for the template `template`.
pub open spec fn template_error_text(template: Seq<char>, fault: TemplateFault) -> Seq<char> {
    match fault {
        TemplateFault::UnclosedBrace => "unexpected end of variable in template '"@ + template + "'"@,
        TemplateFault::EmptyName => "variable without a name in template '"@ + template + "'"@,
    }
}

impl TemplateError {
    /// A description of the error, naming the template that was refused.
    pub fn message(&self) -> (res: String)
        ensures
            res@ == template_error_text(self.template@, self.fault),
    {
        let mut res = match self.fault {
            TemplateFault::UnclosedBrace => "unexpected end of variable in template '".to_owned(),
            TemplateFault::EmptyName => "variable without a name in template '".to_owned(),
        };
        res.append(self.template.as_str());
        res.append("'");
        res
    }
}

/// A parsed URL template. Every variable of it has a name.
#[derive(Debug)]
pub struct UrlTemplate(Vec<Component>);

impl View for UrlTemplate {
    type V = Seq<ComponentView>;

    closed spec fn view(&self) -> Seq<ComponentView> {
        Seq::new(self.0@.len(), |i: int| self.0@[i]@)
    }
}

impl UrlTemplate {
    #[verifier::type_invariant]
    spec fn named(&self) -> bool {
        all_named(self@)
    }

    /// The segments of the template, in order.
    pub fn components(&self) -> (res: &Vec<Component>)
        ensures
            res@.len() == self@.len(),
            forall|i: int| 0 <= i < res@.len() ==> (#[trigger] res@[i])@ == self@[i],
            all_named(self@),
    {
        proof {
            use_type_invariant(self);
        }
        &self.0
    }

    /// Parses a template text.
    ///
    /// Text outside braces is literal. A `{` opens a variable reference that
    /// runs to the next `}`. A `{` with no `}` behind it is an error, and so
    /// is a reference that names no variable; the error carries the
    /// template text.
    pub fn parse(template: String) -> (res: Result<UrlTemplate, TemplateError>)
        ensures
            match res {
                Ok(parsed) => parse_template(template@) == Ok::<Seq<ComponentView>, TemplateFault>(
                    parsed@,
                ) && all_named(parsed@),
                Err(error) => parse_template(template@) == Err::<Seq<ComponentView>, TemplateFault>(
                    error.fault,
                ) && error.template@ == template@,
            },
    {
        let text = template.as_str();
        let chars = chars_of(text);
        let n = chars.len();
        let mut components: Vec<Component> = Vec::new();
        let ghost mut done: Seq<ComponentView> = Seq::empty();
        let mut pos: usize = 0;
        while pos < n
            invariant
                chars@ == template@,
                text@ == template@,
                n == chars@.len(),
                pos <= n,
                done == Seq::new(components@.len(), |i: int| components@[i]@),
                all_named(done),
                parse_template(chars@) == match parse_from(chars@, pos as int) {
                    Ok(rest) => Ok::<Seq<ComponentView>, TemplateFault>(done + rest),
                    Err(fault) => Err(fault),
                },
            decreases n - pos,
        {
            let ghost before = done;
            match find_from(&chars, '{', pos) {
                None => {
                    components.push(Component::Literal(text.substring_char(pos, n).to_owned()));
                    proof {
                        done = before + literal_between(chars@, pos as int, n as int);
                        assert(done =~= Seq::new(components@.len(), |i: int| components@[i]@));
                        assert(parse_from(chars@, n as int) == Ok::<Seq<ComponentView>, TemplateFault>(
                            Seq::empty(),
                        ));
                        assert(done + Seq::<ComponentView>::empty() =~= done);
                        assert(all_named(done)) by {
                            assert forall|i: int| 0 <= i < done.len() && (#[trigger] done[i]) is Variable implies done[i]->Variable_0.name.len()
                                > 0 by {
                                if i < before.len() {
                                    assert(done[i] == before[i]);
                                }
                            }
                        }
                    }
                    pos = n;
                },
                Some(open) => {
                    proof {
                        lemma_find_char(chars@, '{', pos as int);
                    }
                    if open > pos {
                        components.push(Component::Literal(text.substring_char(pos, open).to_owned()));
                    }
                    match find_from(&chars, '}', open + 1) {
                        None => {
                            return Err(TemplateError { template, fault: TemplateFault::UnclosedBrace });
                        },
                        Some(close) => {
                            proof {
                                lemma_find_char(chars@, '}', open + 1);
                            }
                            let content = text.substring_char(open + 1, close).to_owned();
                            let reference = match Variable::parse(content) {
                                Some(reference) => reference,
                                None => {
                                    return Err(TemplateError { template, fault: TemplateFault::EmptyName });
                                },
                            };
                            let ghost named = reference@;
                            components.push(Component::Variable(reference));
                            proof {
                                let variable = seq![ComponentView::Variable(named)];
                                done = before + literal_between(chars@, pos as int, open as int) + variable;
                                assert(done =~= Seq::new(components@.len(), |i: int| components@[i]@));
                                assert(all_named(done)) by {
                                    assert forall|i: int| 0 <= i < done.len() && (#[trigger] done[i]) is Variable implies done[i]->Variable_0.name.len()
                                        > 0 by {
                                        if i < before.len() {
                                            assert(done[i] == before[i]);
                                        } else if i == done.len() - 1 {
                                            assert(done[i] == ComponentView::Variable(named));
                                        }
                                    }
                                }
                                match parse_from(chars@, close + 1) {
                                    Ok(rest) => {
                                        assert(before + (literal_between(chars@, pos as int, open as int)
                                            + variable + rest) =~= done + rest);
                                    },
                                    Err(_) => {},
                                }
                            }
                            pos = close + 1;
                        },
                    }
                },
            }
        }
        proof {
            assert(done + Seq::<ComponentView>::empty() =~= done);
        }
        let parsed = UrlTemplate(components);
        proof {
            assert(done =~= parsed@);
        }
        Ok(parsed)
    }
}

/// The slash that a leading-slash reference puts in front of what it produces.
pub open spec fn slash_prefix(variable: VariableView) -> Seq<char> {
    if variable.leading_slash {
        seq!['/']
    } else {
        Seq::empty()
    }
}

/// What one variable reference produces, or `None` where it is required and
/// `vars` does not bind it.
pub open spec fn render_variable(variable: VariableView, vars: Map<Seq<char>, Seq<char>>) -> Option<
    Seq<char>,
> {
    if vars.dom().contains(variable.name) {
        Some(slash_prefix(variable) + vars[variable.name])
    } else if variable.is_optional {
        match variable.default_value {
            Some(default_value) => Some(slash_prefix(variable) + default_value),
            None => Some(Seq::empty()),
        }
    } else {
        None
    }
}

/// The text that the segments produce from left to right, or the name of the
/// first required variable that `vars` does not bind.
pub open spec fn render(components: Seq<ComponentView>, vars: Map<Seq<char>, Seq<char>>) -> Result<
    Seq<char>,
    Seq<char>,
>
    decreases components.len(),
{
    if components.len() == 0 {
        Ok(Seq::empty())
    } else {
        let first = match components[0] {
            ComponentView::Literal(text) => Some(text),
            ComponentView::Variable(variable) => render_variable(variable, vars),
        };
        match first {
            None => Err(components[0]->Variable_0.name),
            Some(text) => match render(components.skip(1), vars) {
                Ok(rest) => Ok(text + rest),
                Err(name) => Err(name),
            },
        }
    }
}

/// Why a template could not be filled.
#[derive(Debug)]
pub enum FillError {
    /// A variable that is not optional has no value.
    MissingVariable { name: String },
    /// The text that the template produced is not an absolute URL.
    InvalidUrl { text: String },
}

/// The mathematical content of a [`FillError`].
pub enum FillErrorView {
    MissingVariable { name: Seq<char> },
    InvalidUrl { text: Seq<char> },
}

impl View for FillError {
    type V = FillErrorView;

    open spec fn view(&self) -> FillErrorView {
        match self {
            FillError::MissingVariable { name } => FillErrorView::MissingVariable { name: name@ },
            FillError::InvalidUrl { text } => FillErrorView::InvalidUrl { text: text@ },
        }
    }
}

/// The text of a fill error.
pub open spec fn fill_error_text(error: FillErrorView) -> Seq<char> {
    match error {
        FillErrorView::MissingVariable { name } => "missing required variable "@ + name,
        FillErrorView::InvalidUrl { text } => "not an absolute URL: "@ + text,
    }
}

impl FillError {
    /// A description of the error; for a missing variable it names the variable.
    pub fn message(&self) -> (res: String)
        ensures
            res@ == fill_error_text(self@),
    {
        match self {
            FillError::MissingVariable { name } => {
                let mut res = "missing required variable ".to_owned();
                res.append(name.as_str());
                res
            },
            FillError::InvalidUrl { text } => {
                let mut res = "not an absolute URL: ".to_owned();
                res.append(text.as_str());
                res
            },
        }
    }
}

/// The outcome of filling a template: the URL that the produced text parses
/// to, or the reason why there is none.
pub open spec fn fill_outcome(components: Seq<ComponentView>, vars: Map<Seq<char>, Seq<char>>) -> Result<
    UrlView,
    FillErrorView,
> {
    match render(components, vars) {
        Err(name) => Err(FillErrorView::MissingVariable { name }),
        Ok(text) => match url_of(text) {
            Some(url) => Ok(url),
            None => Err(FillErrorView::InvalidUrl { text }),
        },
    }
}

/// The mathematical content of what [`UrlTemplate::fill`] returns.
pub open spec fn filled_view(res: Result<Url, FillError>) -> Result<UrlView, FillErrorView> {
    match res {
        Ok(url) => Ok(url@),
        Err(error) => Err(error@),
    }
}

/// The mathematical content of what [`UrlTemplate::render`] returns.
pub open spec fn rendered_view(res: Result<String, FillError>) -> Result<Seq<char>, FillErrorView> {
    match res {
        Ok(text) => Ok(text@),
        Err(error) => Err(error@),
    }
}

impl UrlTemplate {
    /// Produces the text of the template under `variables`.
    ///
    /// Literals are copied. A bound variable yields its value, an unbound
    /// optional one its default or nothing; either is preceded by a slash
    /// where the reference asks for one. The first unbound required variable
    /// ends the walk with an error that names it.
    pub fn render(&self, variables: &Variables) -> (res: Result<String, FillError>)
        ensures
            rendered_view(res) == match render(self@, variables@) {
                Ok(text) => Ok(text),
                Err(name) => Err(FillErrorView::MissingVariable { name }),
            },
    {
        let mut buf = String::new();
        let mut i: usize = 0;
        proof {
            assert(self@.skip(0) =~= self@);
            assert(buf@ + render(self@, variables@)->Ok_0 =~= render(self@, variables@)->Ok_0);
        }
        while i < self.0.len()
            invariant
                i <= self.0@.len(),
                self@.len() == self.0@.len(),
                render(self@, variables@) == match render(self@.skip(i as int), variables@) {
                    Ok(rest) => Ok(buf@ + rest),
                    Err(name) => Err(name),
                },
            decreases self.0@.len() - i,
        {
            let ghost before = buf@;
            let ghost here = self@.skip(i as int);
            proof {
                assert(here[0] == self.0@[i as int]@);
                assert(here.skip(1) =~= self@.skip(i + 1));
                reveal_strlit("/");
                assert("/"@ =~= seq!['/']);
            }
            match &self.0[i] {
                Component::Literal(literal) => {
                    buf.append(literal.as_str());
                },
                Component::Variable(variable) => {
                    match variables.get(variable.name.as_str()) {
                        Some(value) => {
                            if variable.leading_slash {
                                buf.append("/");
                            }
                            buf.append(value.as_str());
                            assert(buf@ =~= before + (slash_prefix(variable@) + value@));
                        },
                        None => {
                            if variable.is_optional {
                                match &variable.default_value {
                                    Some(default_value) => {
                                        if variable.leading_slash {
                                            buf.append("/");
                                        }
                                        buf.append(default_value.as_str());
                                        assert(buf@ =~= before + (slash_prefix(variable@) + default_value@));
                                    },
                                    None => {
                                        assert(buf@ =~= before + Seq::<char>::empty());
                                    },
                                }
                            } else {
                                return Err(FillError::MissingVariable { name: variable.name.clone() });
                            }
                        },
                    }
                },
            }
            proof {
                match render(self@.skip(i + 1), variables@) {
                    Ok(rest) => {
                        let text = match here[0] {
                            ComponentView::Literal(text) => text,
                            ComponentView::Variable(variable) => render_variable(variable, variables@)->Some_0,
                        };
                        assert(before + (text + rest) =~= buf@ + rest);
                    },
                    Err(_) => {},
                }
            }
            i += 1;
        }
        proof {
            assert(self@.skip(i as int) =~= Seq::<ComponentView>::empty());
            assert(buf@ + Seq::<char>::empty() =~= buf@);
        }
        Ok(buf)
    }

    /// Fills the template from `variables` and parses the text that comes out
    /// as an absolute URL.
    pub fn fill(&self, variables: &Variables) -> (res: Result<Url, FillError>)
        ensures
            filled_view(res) == fill_outcome(self@, variables@),
    {
        match self.render(variables) {
            Err(error) => Err(error),
            Ok(text) => match Url::parse(text.as_str()) {
                Ok(url) => Ok(url),
                Err(_) => Err(FillError::InvalidUrl { text }),
            },
        }
    }
}

/// Whether `s` has a `}` somewhere behind position `i`.
pub open spec fn closes_after(s: Seq<char>, i: int) -> bool {
    exists|j: int| i < j < s.len() && #[trigger] s[j] == '}'
}

/// Whether position `i` of `s` holds a `{` with no `}` behind it.
pub open spec fn unclosed_at(s: Seq<char>, i: int) -> bool {
    0 <= i < s.len() && s[i] == '{' && !closes_after(s, i)
}

/// Whether `s` has, at or after `pos`, a `{` with no `}` behind it.
pub open spec fn unclosed_from(s: Seq<char>, pos: int) -> bool {
    exists|i: int| pos <= i && #[trigger] unclosed_at(s, i)
}

/// Parsing from `pos` fails where a `{` at or after `pos` has no `}`
/// behind it; where it fails for an unclosed brace, there is such a `{`;
/// and where it succeeds, every variable has a name.
pub proof fn lemma_parse_from(s: Seq<char>, pos: int)
    requires
        0 <= pos,
    ensures
        unclosed_from(s, pos) ==> parse_from(s, pos) is Err,
        parse_from(s, pos) == Err::<Seq<ComponentView>, TemplateFault>(TemplateFault::UnclosedBrace)
            ==> unclosed_from(s, pos),
        parse_from(s, pos) matches Ok(components) ==> all_named(components),
    decreases s.len() - pos,
{
    if pos >= s.len() {
        assert forall|i: int| pos <= i implies !#[trigger] unclosed_at(s, i) by {}
    } else {
        lemma_find_char(s, '{', pos);
        match find_char(s, '{', pos) {
            None => {
                assert forall|i: int| pos <= i implies !#[trigger] unclosed_at(s, i) by {}
            },
            Some(open) => {
                lemma_find_char(s, '}', open + 1);
                match find_char(s, '}', open + 1) {
                    None => {
                        assert(!closes_after(s, open));
                        assert(unclosed_at(s, open));
                    },
                    Some(close) => {
                        lemma_parse_from(s, close + 1);
                        if unclosed_from(s, close + 1) {
                            let i = choose|i: int| close + 1 <= i && #[trigger] unclosed_at(s, i);
                            assert(pos <= i && unclosed_at(s, i));
                        }
                        if unclosed_from(s, pos) {
                            let i = choose|i: int| pos <= i && #[trigger] unclosed_at(s, i);
                            if i < close {
                                assert(s[close] == '}');
                                assert(closes_after(s, i));
                            }
                            assert(close + 1 <= i && unclosed_at(s, i));
                        }
                        match parse_variable(s.subrange(open + 1, close)) {
                            None => {},
                            Some(variable) => {
                                match parse_from(s, close + 1) {
                                    Err(_) => {},
                                    Ok(rest) => {
                                        let front = literal_between(s, pos, open);
                                        let all = front + seq![ComponentView::Variable(variable)] + rest;
                                        assert forall|i: int| 0 <= i < all.len() && (#[trigger] all[i]) is Variable implies all[i]->Variable_0.name.len()
                                            > 0 by {
                                            if i < front.len() {
                                                assert(all[i] == front[i]);
                                            } else if i == front.len() {
                                                assert(all[i] == ComponentView::Variable(variable));
                                            } else {
                                                assert(all[i] == rest[i - front.len() - 1]);
                                            }
                                        }
                                    },
                                }
                            },
                        }
                    },
                }
            },
        }
    }
}

/// A template text that holds a `{` with no `}` behind it is refused, and a
/// text that is refused for an unclosed brace holds such a `{`.
pub proof fn law_unclosed_brace_is_refused(s: Seq<char>)
    ensures
        unclosed_from(s, 0) ==> parse_template(s) is Err,
        parse_template(s) == Err::<Seq<ComponentView>, TemplateFault>(TemplateFault::UnclosedBrace)
            ==> unclosed_from(s, 0),
{
    lemma_parse_from(s, 0);
}

/// Every variable of a template has a name: a text in which a pair of
/// braces names none is no template.
pub proof fn law_variables_are_named(s: Seq<char>)
    ensures
        parse_template(s) matches Ok(components) ==> all_named(components),
{
    lemma_parse_from(s, 0);
}

/// Whether `component` is a variable named `name` that is not optional.
pub open spec fn requires_variable(component: ComponentView, name: Seq<char>) -> bool {
    component is Variable && component->Variable_0.name == name && !component->Variable_0.is_optional
}

/// Whether `name` is the name of a variable of the template that is not
/// optional and that `vars` does not bind.
pub open spec fn is_unbound_required(
    components: Seq<ComponentView>,
    vars: Map<Seq<char>, Seq<char>>,
    name: Seq<char>,
) -> bool {
    !vars.dom().contains(name) && exists|i: int|
        0 <= i < components.len() && requires_variable(#[trigger] components[i], name)
}

/// Whether `vars` binds every variable of the template that is not optional.
pub open spec fn binds_required(components: Seq<ComponentView>, vars: Map<Seq<char>, Seq<char>>) -> bool {
    forall|i: int|
        0 <= i < components.len() ==> ((#[trigger] components[i]) matches ComponentView::Variable(variable)
            ==> variable.is_optional || vars.dom().contains(variable.name))
}

/// Rendering fails only for a required variable that is not bound, and
/// names it.
pub proof fn lemma_render_failure(components: Seq<ComponentView>, vars: Map<Seq<char>, Seq<char>>)
    ensures
        render(components, vars) matches Err(name) ==> is_unbound_required(components, vars, name),
        binds_required(components, vars) ==> render(components, vars) is Ok,
    decreases components.len(),
{
    if components.len() > 0 {
        let rest = components.skip(1);
        lemma_render_failure(rest, vars);
        match render(components, vars) {
            Err(name) => {
                let first = match components[0] {
                    ComponentView::Literal(text) => Some(text),
                    ComponentView::Variable(variable) => render_variable(variable, vars),
                };
                if first is None {
                    assert(requires_variable(components[0], name));
                } else {
                    let i = choose|i: int| 0 <= i < rest.len() && requires_variable(#[trigger] rest[i], name);
                    assert(components[i + 1] == rest[i]);
                    assert(requires_variable(components[i + 1], name));
                }
            },
            Ok(_) => {},
        }
        if binds_required(components, vars) {
            assert(components[0] is Variable ==> render_variable(components[0]->Variable_0, vars) is Some);
            assert forall|i: int| 0 <= i < rest.len() implies ((#[trigger] rest[i]) matches ComponentView::Variable(
                variable,
            ) ==> variable.is_optional || vars.dom().contains(variable.name)) by {
                assert(rest[i] == components[i + 1]);
            }
        }
    }
}

/// Filling a template has one of three outcomes: the URL that the rendered
/// text parses to; an error that names a required variable of the template
/// that is not bound; or an error that carries the rendered text, which is
/// no URL.
pub proof fn law_fill_outcomes(components: Seq<ComponentView>, vars: Map<Seq<char>, Seq<char>>)
    ensures
        match fill_outcome(components, vars) {
            Ok(url) => render(components, vars) matches Ok(text) && url_of(text) == Some(url),
            Err(FillErrorView::MissingVariable { name }) => is_unbound_required(components, vars, name),
            Err(FillErrorView::InvalidUrl { text }) => render(components, vars) == Ok::<Seq<char>, Seq<char>>(
                text,
            ) && url_of(text) is None,
        },
{
    lemma_render_failure(components, vars);
}

/// Where the variable map binds every required variable of a template and
/// the text that the template produces is a URL, filling the template
/// yields that URL.
pub proof fn law_fill_with_required_variables(
    template: Seq<char>,
    components: Seq<ComponentView>,
    vars: Map<Seq<char>, Seq<char>>,
)
    requires
        parse_template(template) == Ok::<Seq<ComponentView>, TemplateFault>(components),
        binds_required(components, vars),
        render(components, vars) matches Ok(text) ==> url_of(text) is Some,
    ensures
        render(components, vars) matches Ok(text) && fill_outcome(components, vars) == Ok::<
            UrlView,
            FillErrorView,
        >(url_of(text)->Some_0),
{
    lemma_render_failure(components, vars);
}

/// An optional variable that is not bound produces its default, behind a
/// slash if and only if the reference asks for one, and nothing at all
/// where it has no default.
pub proof fn law_absent_optional(variable: VariableView, vars: Map<Seq<char>, Seq<char>>)
    requires
        variable.is_optional,
        !vars.dom().contains(variable.name),
    ensures
        render_variable(variable, vars) == Some(
            match variable.default_value {
                Some(default_value) => if variable.leading_slash {
                    seq!['/'] + default_value
                } else {
                    default_value
                },
                None => Seq::<char>::empty(),
            },
        ),
{
    match variable.default_value {
        Some(default_value) => {
            if !variable.leading_slash {
                assert(Seq::<char>::empty() + default_value =~= default_value);
            }
        },
        None => {},
    }
}

} // verus!
