//! Splitting of command text and expansion of templates.

use crate::context::{names_of, var_entries, Binding, Context};
use crate::json::{json_parse, parse_json, Json, JsonModel};
use crate::text::{
    chars_of, contains, contains_chars, is_whitespace, join, lemma_join_front, lemma_leading_is,
    lemma_split_on_unfold, lemma_trailing_is, lemma_views_push, skip_backward, skip_forward,
    split_on, strip_trailing, trim, trim_end, trim_range, trim_start, views, CharClass,
};
use indexmap::IndexMap;
use vstd::prelude::*;
use vstd::string::*;

verus! {

/// The logical commands that `lines` hold, where `pending` is the text of a continuation
/// that an earlier line has opened and no line has closed yet.
///
/// A blank line is passed over. A line whose last character, after trimming, is a
/// backslash is continued by the next one: its trailing backslashes and the white space
/// before them go, and one space takes their place. Any other line closes a command.
/// Text that is still pending after the last line is a command of its own.
pub open spec fn logical_commands(lines: Seq<Seq<char>>, pending: Seq<char>) -> Seq<Seq<char>>
    decreases lines.len(),
{
    if lines.len() == 0 {
        if pending.len() == 0 {
            Seq::empty()
        } else {
            seq![pending]
        }
    } else {
        let line = trim(lines[0]);
        let rest = lines.drop_first();
        if line.len() == 0 {
            logical_commands(rest, pending)
        } else if line.last() == '\\' {
            logical_commands(rest, pending + trim_end(strip_trailing(line, '\\')) + seq![' '])
        } else {
            seq![pending + line] + logical_commands(rest, Seq::empty())
        }
    }
}

/// The logical commands of a `shell` or `command` field.
pub open spec fn split_commands_spec(input: Seq<char>) -> Seq<Seq<char>> {
    logical_commands(split_on(input, '\n'), Seq::empty())
}

/// A line of a command as it stands once trimmed, when it neither is blank nor asks to be
/// continued: no line break inside, no white space at either end, no backslash at the end.
pub open spec fn is_command_piece(piece: Seq<char>) -> bool {
    &&& piece.len() > 0
    &&& !is_whitespace(piece[0])
    &&& !is_whitespace(piece.last())
    &&& piece.last() != '\\'
    &&& forall|i: int| 0 <= i < piece.len() ==> #[trigger] piece[i] != '\n'
}

/// White space that stays within a line.
pub open spec fn is_gap(gap: Seq<char>) -> bool {
    forall|i: int| 0 <= i < gap.len() ==> is_whitespace(#[trigger] gap[i]) && gap[i] != '\n'
}

/// Continuation and splitting undo each other: lines that are written one below the
/// other, each but the last closed by `gap`, a backslash and a line break, are split into
/// a single logical command, and that command is the lines joined by single spaces.
pub proof fn lemma_split_joins_continued_lines(pieces: Seq<Seq<char>>, gap: Seq<char>)
    requires
        pieces.len() >= 1,
        forall|i: int| 0 <= i < pieces.len() ==> is_command_piece(#[trigger] pieces[i]),
        is_gap(gap),
    ensures
        split_commands_spec(join(pieces, gap + seq!['\\', '\n'])) == seq![join(pieces, seq![' '])],
{
    lemma_continued_lines(pieces, gap, Seq::empty());
    assert(Seq::<char>::empty() + join(pieces, seq![' ']) =~= join(pieces, seq![' ']));
}

proof fn lemma_continued_lines(pieces: Seq<Seq<char>>, gap: Seq<char>, pending: Seq<char>)
    requires
        pieces.len() >= 1,
        forall|i: int| 0 <= i < pieces.len() ==> is_command_piece(#[trigger] pieces[i]),
        is_gap(gap),
    ensures
        logical_commands(split_on(join(pieces, gap + seq!['\\', '\n']), '\n'), pending) == seq![
            pending + join(pieces, seq![' ']),
        ],
    decreases pieces.len(),
{
    let sep = gap + seq!['\\', '\n'];
    let text = join(pieces, sep);
    let first = pieces[0];
    assert(is_command_piece(first));
    if pieces.len() == 1 {
        assert(text == first);
        lemma_leading_is(first, CharClass::Except('\n'), first.len());
        let lines = split_on(first, '\n');
        lemma_split_on_unfold(first, '\n');
        assert(lines[0] == first);
        lemma_piece_is_trimmed(first);
        assert(logical_commands(lines.drop_first(), Seq::empty()) == Seq::<Seq<char>>::empty());
        assert(seq![pending + first] + Seq::<Seq<char>>::empty() =~= seq![pending + first]);
    } else {
        let others = pieces.drop_first();
        lemma_join_front(pieces, sep);
        lemma_join_front(pieces, seq![' ']);
        let line = first + gap + seq!['\\'];
        let after = join(others, sep);
        assert(text =~= line + seq!['\n'] + after);
        lemma_leading_is(text, CharClass::Except('\n'), line.len());
        let lines = split_on(text, '\n');
        lemma_split_on_unfold(text, '\n');
        assert(text.take(line.len() as int) =~= line);
        assert(text.skip(line.len() as int + 1) =~= after);
        assert(lines[0] == line);
        assert(lines.drop_first() == split_on(after, '\n'));
        lemma_piece_is_trimmed(line);
        assert(line.last() == '\\');
        lemma_trailing_is(line, CharClass::Only('\\'), 1);
        assert(strip_trailing(line, '\\') =~= first + gap);
        lemma_trailing_is(first + gap, CharClass::Space, gap.len());
        assert(trim_end(first + gap) =~= first);
        assert forall|i: int| 0 <= i < others.len() implies is_command_piece(
            #[trigger] others[i],
        ) by {
            assert(others[i] == pieces[i + 1]);
        }
        lemma_continued_lines(others, gap, pending + first + seq![' ']);
        assert(pending + first + seq![' '] + join(others, seq![' ']) =~= pending + join(
            pieces,
            seq![' '],
        ));
    }
}

/// Trimming leaves alone a text that has no white space at either end.
proof fn lemma_piece_is_trimmed(piece: Seq<char>)
    requires
        piece.len() > 0,
        !is_whitespace(piece[0]),
        !is_whitespace(piece.last()),
    ensures
        trim(piece) == piece,
{
    lemma_leading_is(piece, CharClass::Space, 0);
    lemma_trailing_is(piece, CharClass::Space, 0);
    assert(trim_start(piece) =~= piece);
    assert(trim_end(piece) =~= piece);
}

/// What one more line adds: the commands closed so far and the text still pending, when
/// `line` (already trimmed) follows `done` closed commands and the pending text `pending`.
proof fn lemma_take_line(
    lines: Seq<Seq<char>>,
    pending: Seq<char>,
    done: Seq<Seq<char>>,
    total: Seq<Seq<char>>,
)
    requires
        lines.len() > 0,
        total == done + logical_commands(lines, pending),
    ensures
        ({
            let line = trim(lines[0]);
            let rest = lines.drop_first();
            if line.len() == 0 {
                total == done + logical_commands(rest, pending)
            } else if line.last() == '\\' {
                total == done + logical_commands(
                    rest,
                    pending + trim_end(strip_trailing(line, '\\')) + seq![' '],
                )
            } else {
                total == done.push(pending + line) + logical_commands(rest, Seq::empty())
            }
        }),
{
    let line = trim(lines[0]);
    let rest = lines.drop_first();
    if line.len() > 0 && line.last() != '\\' {
        assert(done + (seq![pending + line] + logical_commands(rest, Seq::empty())) =~= done.push(
            pending + line,
        ) + logical_commands(rest, Seq::empty()));
    }
}

/// Splits the text of a `shell` or `command` field into its logical commands, in order.
pub fn split_commands(input: &str) -> (commands: Vec<String>)
    ensures
        views(commands@) == split_commands_spec(input@),
{
    let chars = chars_of(input);
    let n: usize = chars.len();
    let mut commands: Vec<String> = Vec::new();
    let mut current = String::new();
    let mut pos: usize = 0;
    let mut done = false;
    proof {
        assert(input@.skip(0) =~= input@);
        assert(views(commands@) =~= Seq::empty());
        assert(views(commands@) + split_commands_spec(input@) =~= split_commands_spec(input@));
    }
    while !done
        invariant
            chars@ == input@,
            n == chars.len(),
            pos <= n,
            split_commands_spec(input@) == views(commands@) + logical_commands(
                if done {
                    Seq::empty()
                } else {
                    split_on(input@.skip(pos as int), '\n')
                },
                current@,
            ),
        decreases (n - pos) + (if done { 0int } else { 1int }),
    {
        let ghost rest = input@.skip(pos as int);
        let ghost lines = split_on(rest, '\n');
        let end: usize = skip_forward(&chars, pos, n, CharClass::Except('\n'));
        let (a, b) = trim_range(&chars, pos, end);
        proof {
            assert(chars@.subrange(pos as int, n as int) =~= rest);
            lemma_split_on_unfold(rest, '\n');
            assert(rest.take(end - pos) =~= chars@.subrange(pos as int, end as int));
            if end < n {
                assert(rest.skip(end - pos + 1) =~= input@.skip(end + 1));
            }
            lemma_take_line(lines, current@, views(commands@), split_commands_spec(input@));
        }
        let ghost line = chars@.subrange(a as int, b as int);
        if a < b {
            if chars[b - 1] == '\\' {
                let c: usize = skip_backward(&chars, a, b, CharClass::Only('\\'));
                let d: usize = skip_backward(&chars, a, c, CharClass::Space);
                proof {
                    reveal_strlit(" ");
                    assert(" "@ =~= seq![' ']);
                    assert(strip_trailing(line, '\\') =~= chars@.subrange(a as int, c as int));
                    assert(trim_end(chars@.subrange(a as int, c as int)) =~= chars@.subrange(
                        a as int,
                        d as int,
                    ));
                }
                current.append(input.substring_char(a, d));
                current.append(" ");
            } else {
                current.append(input.substring_char(a, b));
                proof {
                    lemma_views_push(commands@, current);
                }
                commands.push(current);
                current = String::new();
            }
        }
        if end == n {
            done = true;
        } else {
            pos = end + 1;
        }
    }
    if !current.as_str().is_empty() {
        proof {
            lemma_views_push(commands@, current);
            assert(views(commands@) + seq![current@] =~= views(commands@).push(current@));
        }
        commands.push(current);
    } else {
        assert(views(commands@) + Seq::<Seq<char>>::empty() =~= views(commands@));
    }
    commands
}

/// Why a template could not be expanded.
#[derive(Debug, Clone, PartialEq, Eq)]
pub enum RenderError {
    /// The template names a variable that the context does not hold.
    UndefinedVariable {
        /// The template.
        template: String,
        /// The names that the context holds.
        available: Vec<String>,
    },
    /// The template is malformed, or asks for something that cannot be done.
    TemplateSyntaxError {
        /// The template.
        template: String,
        /// What the template engine says of it.
        message: String,
    },
    /// The template asks for JSON, and what it expands to is none.
    InvalidJson {
        /// The template.
        template: String,
        /// What the template expands to.
        rendered: String,
        /// What the JSON parser says of it.
        message: String,
    },
}

/// The mathematical model of a [`RenderError`].
pub enum RenderErrorModel {
    UndefinedVariable { template: Seq<char>, available: Seq<Seq<char>> },
    TemplateSyntaxError { template: Seq<char>, message: Seq<char> },
    InvalidJson { template: Seq<char>, rendered: Seq<char>, message: Seq<char> },
}

impl View for RenderError {
    type V = RenderErrorModel;

    open spec fn view(&self) -> RenderErrorModel {
        match self {
            RenderError::UndefinedVariable { template, available } => {
                RenderErrorModel::UndefinedVariable {
                    template: template@,
                    available: views(available@),
                }
            },
            RenderError::TemplateSyntaxError { template, message } => {
                RenderErrorModel::TemplateSyntaxError { template: template@, message: message@ }
            },
            RenderError::InvalidJson { template, rendered, message } => {
                RenderErrorModel::InvalidJson {
                    template: template@,
                    rendered: rendered@,
                    message: message@,
                }
            },
        }
    }
}

/// What the template engine reports when it fails.
#[derive(Debug, Clone, PartialEq, Eq)]
pub struct TemplateFault {
    /// Whether the failure is a lookup of something undefined.
    pub undefined: bool,
    /// The engine's message.
    pub message: String,
}

/// The mathematical model of a [`TemplateFault`].
pub struct TemplateFaultModel {
    pub undefined: bool,
    pub message: Seq<char>,
}

impl View for TemplateFault {
    type V = TemplateFaultModel;

    open spec fn view(&self) -> TemplateFaultModel {
        TemplateFaultModel { undefined: self.undefined, message: self.message@ }
    }
}

/// The model of what the template engine hands back.
pub open spec fn engine_view(r: Result<String, TemplateFault>) -> Result<
    Seq<char>,
    TemplateFaultModel,
> {
    match r {
        Ok(s) => Ok(s@),
        Err(f) => Err(f@),
    }
}

/// The model of an expansion's result.
pub open spec fn text_result_view(r: Result<String, RenderError>) -> Result<
    Seq<char>,
    RenderErrorModel,
> {
    match r {
        Ok(s) => Ok(s@),
        Err(e) => Err(e@),
    }
}

/// The model of a coerced expansion's result.
pub open spec fn value_result_view(r: Result<Json, RenderError>) -> Result<
    JsonModel,
    RenderErrorModel,
> {
    match r {
        Ok(v) => Ok(v@),
        Err(e) => Err(e@),
    }
}

/// What `minijinja` makes of a template and a context, with lookups of undefined
/// variables as errors and the filter `from_json` in place: the expanded text, or the
/// engine's complaint.
pub uninterp spec fn template_output(template: Seq<char>, vars: Seq<Binding>) -> Result<
    Seq<char>,
    TemplateFaultModel,
>;

/// `minijinja::Value`, which the library only hands through the filter below.
#[verifier::external_type_specification]
#[verifier::external_body]
pub struct ExTemplateValue(minijinja::Value);

/// The filter `from_json`. In a template it changes nothing: its presence in the text of
/// a variable's template is what asks for the expansion to be read as JSON.
pub fn from_json_filter(value: minijinja::Value) -> (same: minijinja::Value)
    ensures
        same == value,
{
    value
}

/// Turns a value of this library into one of `serde_json`, variant by variant.
#[verifier::external_body]
fn export_value(v: &Json) -> serde_json::Value {
    match v {
        Json::Null => serde_json::Value::Null,
        Json::Bool(b) => serde_json::Value::Bool(*b),
        Json::Int(i) => serde_json::Value::from(*i),
        Json::Decimal(t) => serde_json::from_str::<serde_json::Number>(t).map_or(
            serde_json::Value::Null,
            serde_json::Value::Number,
        ),
        Json::Str(s) => serde_json::Value::String(s.clone()),
        Json::Array(a) => serde_json::Value::Array(a.iter().map(export_value).collect()),
        Json::Object(o) => serde_json::Value::Object(
            o.iter().map(|(k, m)| (k.clone(), export_value(m))).collect(),
        ),
    }
}

/// Expands a template with `minijinja`: an `Environment` with strict lookups and the
/// filter `from_json`, `template_from_str`, then `render` on the variables. The result is
/// whatever the engine makes of the two, which the contract names and does not describe;
/// of a failure it keeps whether the engine calls it an undefined value, and the message.
#[verifier::external_body]
fn render_template(template: &str, vars: &IndexMap<String, Json>) -> (r: Result<
    String,
    TemplateFault,
>)
    ensures
        engine_view(r) == template_output(template@, var_entries(*vars)),
{
    let mut env = minijinja::Environment::new();
    env.set_undefined_behavior(minijinja::UndefinedBehavior::Strict);
    env.add_filter("from_json", from_json_filter);
    let data: IndexMap<&String, serde_json::Value> = vars.iter().map(
        |(k, v)| (k, export_value(v)),
    ).collect();
    env.template_from_str(template).and_then(|t| t.render(&data)).map_err(
        |e|
            TemplateFault {
                undefined: matches!(e.kind(), minijinja::ErrorKind::UndefinedError),
                message: e.to_string(),
            },
    )
}

/// What the expansion of `template` in the context `vars` is, given what the template
/// engine makes of the two.
pub open spec fn render_outcome_spec(
    template: Seq<char>,
    vars: Seq<Binding>,
    outcome: Result<Seq<char>, TemplateFaultModel>,
) -> Result<Seq<char>, RenderErrorModel> {
    match outcome {
        Ok(text) => Ok(text),
        Err(fault) => if fault.undefined {
            Err(RenderErrorModel::UndefinedVariable { template, available: names_of(vars) })
        } else {
            Err(RenderErrorModel::TemplateSyntaxError { template, message: fault.message })
        },
    }
}

/// The expansion of `template` in the context `vars`.
pub open spec fn render_spec(template: Seq<char>, vars: Seq<Binding>) -> Result<
    Seq<char>,
    RenderErrorModel,
> {
    render_outcome_spec(template, vars, template_output(template, vars))
}

/// Turns what the template engine has made of `msg` into the result of the expansion: the
/// text as it is, and a failure with what an operator needs to mend the template.
pub fn render_outcome(msg: &str, vars: &Context, outcome: Result<String, TemplateFault>) -> (r:
    Result<String, RenderError>)
    ensures
        text_result_view(r) == render_outcome_spec(msg@, vars@, engine_view(outcome)),
{
    match outcome {
        Ok(text) => Ok(text),
        Err(fault) => {
            if fault.undefined {
                Err(
                    RenderError::UndefinedVariable {
                        template: msg.to_owned(),
                        available: vars.names(),
                    },
                )
            } else {
                Err(
                    RenderError::TemplateSyntaxError {
                        template: msg.to_owned(),
                        message: fault.message,
                    },
                )
            }
        },
    }
}

/// Expands the template `msg` against the variables of `vars`.
pub fn replace_placeholders(msg: &str, vars: &Context) -> (r: Result<String, RenderError>)
    ensures
        text_result_view(r) == render_spec(msg@, vars@),
{
    let outcome = render_template(msg, vars.as_map());
    render_outcome(msg, vars, outcome)
}

/// The name of the filter whose presence asks for JSON.
pub open spec fn json_marker() -> Seq<char> {
    seq!['f', 'r', 'o', 'm', '_', 'j', 's', 'o', 'n']
}

/// The value that a variable's template stands for, given the text `rendered` that it
/// expands to and what the JSON parser makes of that text.
pub open spec fn coerce_outcome_spec(
    template: Seq<char>,
    rendered: Seq<char>,
    parsed: Result<JsonModel, Seq<char>>,
) -> Result<JsonModel, RenderErrorModel> {
    if contains(template, json_marker()) {
        match parsed {
            Ok(value) => Ok(value),
            Err(message) => Err(RenderErrorModel::InvalidJson { template, rendered, message }),
        }
    } else {
        Ok(JsonModel::Str(rendered))
    }
}

/// The value that a variable's template stands for in the context `vars`.
pub open spec fn coerce_spec(template: Seq<char>, vars: Seq<Binding>) -> Result<
    JsonModel,
    RenderErrorModel,
> {
    match render_spec(template, vars) {
        Ok(rendered) => coerce_outcome_spec(template, rendered, json_parse(rendered)),
        Err(e) => Err(e),
    }
}

/// Coercion is parsing: where the text of a variable's template holds `from_json` and the
/// template expands to `rendered`, the variable's value is what the JSON parser makes of
/// `rendered`, neither more nor less.
pub proof fn lemma_coercion_is_parsing(
    template: Seq<char>,
    vars: Seq<Binding>,
    rendered: Seq<char>,
)
    requires
        contains(template, json_marker()),
        render_spec(template, vars) == Ok::<Seq<char>, RenderErrorModel>(rendered),
    ensures
        json_parse(rendered) matches Ok(value) ==> coerce_spec(template, vars) == Ok::<
            JsonModel,
            RenderErrorModel,
        >(value),
        json_parse(rendered) matches Err(message) ==> coerce_spec(template, vars) == Err::<
            JsonModel,
            RenderErrorModel,
        >(RenderErrorModel::InvalidJson { template, rendered, message }),
{
}

/// Whether the text of a template asks for its expansion to be read as JSON.
pub fn wants_json(msg: &str) -> (b: bool)
    ensures
        b == contains(msg@, json_marker()),
{
    proof {
        reveal_strlit("from_json");
        assert("from_json"@ =~= json_marker());
    }
    let hay = chars_of(msg);
    let pat = chars_of("from_json");
    contains_chars(&hay, &pat)
}

/// Turns the expansion of a variable's template into the variable's value: the text as a
/// string, or, where the template asks for JSON, what the JSON parser has made of the text.
pub fn coerce_outcome(msg: &str, rendered: String, parsed: Result<Json, String>) -> (r: Result<
    Json,
    RenderError,
>)
    ensures
        value_result_view(r) == coerce_outcome_spec(
            msg@,
            rendered@,
            crate::json::parsed_view(parsed),
        ),
{
    if wants_json(msg) {
        match parsed {
            Ok(value) => Ok(value),
            Err(message) => Err(
                RenderError::InvalidJson { template: msg.to_owned(), rendered, message },
            ),
        }
    } else {
        Ok(Json::Str(rendered))
    }
}

/// Expands the template `msg` of a variable and gives the variable's value: the expanded
/// text as a string, or, where the template's text holds `from_json`, the JSON value that
/// the expanded text stands for.
pub fn replace_placeholders_vars(msg: &str, vars: &Context) -> (r: Result<Json, RenderError>)
    ensures
        value_result_view(r) == coerce_spec(msg@, vars@),
{
    match replace_placeholders(msg, vars) {
        Ok(rendered) => {
            let parsed = parse_json(rendered.as_str());
            coerce_outcome(msg, rendered, parsed)
        },
        Err(e) => Err(e),
    }
}

} // verus!
