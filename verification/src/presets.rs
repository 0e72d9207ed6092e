//! The pricing scripts that come with the application: the head of a script's
//! file, and how a script is written into the source of the application.

use crate::text;
use vstd::prelude::*;

verus! {

/// What a script says of itself.
#[derive(Debug)]
pub struct PresetMeta {
    pub id: String,
    pub label: String,
    /// The addresses for which the script is meant.
    pub prefer: Vec<String>,
}

/// Why a script is not taken.
#[derive(Debug)]
pub enum PresetError {
    EmptyLabel,
    EmptyId,
    InvalidId(String),
    EmptyPrefer,
    PreferNotHttp,
    InvalidPrefer(String),
    UnknownDirective(String),
    /// The identifier, given or made of the file's name, is none.
    InvalidPresetId(String),
}

/// Why a script is not taken.
pub enum ErrorView {
    EmptyLabel,
    EmptyId,
    InvalidId(Seq<char>),
    EmptyPrefer,
    PreferNotHttp,
    InvalidPrefer(Seq<char>),
    UnknownDirective(Seq<char>),
    InvalidPresetId(Seq<char>),
}

impl PresetError {
    /// What the error is.
    pub open spec fn view(&self) -> ErrorView {
        match self {
            PresetError::EmptyLabel => ErrorView::EmptyLabel,
            PresetError::EmptyId => ErrorView::EmptyId,
            PresetError::InvalidId(s) => ErrorView::InvalidId(s@),
            PresetError::EmptyPrefer => ErrorView::EmptyPrefer,
            PresetError::PreferNotHttp => ErrorView::PreferNotHttp,
            PresetError::InvalidPrefer(s) => ErrorView::InvalidPrefer(s@),
            PresetError::UnknownDirective(s) => ErrorView::UnknownDirective(s@),
            PresetError::InvalidPresetId(s) => ErrorView::InvalidPresetId(s@),
        }
    }
}

/// What was read of a head so far.
#[verifier::ext_equal]
pub struct HeadView {
    pub id: Option<Seq<char>>,
    pub label: Option<Seq<char>>,
    pub prefer: Seq<Seq<char>>,
}

struct Head {
    id: Option<String>,
    label: Option<String>,
    prefer: Vec<String>,
}

impl Head {
    closed spec fn view(&self) -> HeadView {
        HeadView {
            id: text::opt_view(self.id),
            label: text::opt_view(self.label),
            prefer: text::views(self.prefer@),
        }
    }
}

/// Whether a character is a letter or a digit of ASCII.
pub open spec fn is_alphanumeric(c: char) -> bool {
    ('a' <= c <= 'z') || ('A' <= c <= 'Z') || ('0' <= c <= '9')
}

/// Whether a text is an identifier: letters, digits and hyphens.
pub open spec fn safe_id(s: Seq<char>) -> bool {
    s.len() > 0 && (forall|i: int|
        0 <= i < s.len() ==> is_alphanumeric(#[trigger] s[i]) || s[i] == '-')
}

/// Whether a text is the name of a script's file: an identifier that may hold
/// underscores too.
pub open spec fn safe_stem(s: Seq<char>) -> bool {
    s.len() > 0 && (forall|i: int|
        0 <= i < s.len() ==> is_alphanumeric(#[trigger] s[i]) || s[i] == '_' || s[i] == '-')
}

fn alphanumeric(c: char) -> (r: bool)
    ensures
        r == is_alphanumeric(c),
{
    ('a' <= c && c <= 'z') || ('A' <= c && c <= 'Z') || ('0' <= c && c <= '9')
}

/// Whether a text is an identifier.
pub fn is_safe_id(id: &str) -> (r: bool)
    ensures
        r == safe_id(id@),
{
    let chars: Vec<char> = text::to_chars(id);
    let mut i: usize = 0;
    while i < chars.len()
        invariant
            chars@ == id@,
            i <= chars@.len(),
            forall|j: int| 0 <= j < i ==> is_alphanumeric(#[trigger] id@[j]) || id@[j] == '-',
        decreases chars@.len() - i,
    {
        if !alphanumeric(chars[i]) && chars[i] != '-' {
            assert(!is_alphanumeric(id@[i as int]) && id@[i as int] != '-');
            return false;
        }
        i = i + 1;
    }
    chars.len() > 0
}

/// Whether a text is the name of a script's file.
pub fn is_safe_stem(stem: &str) -> (r: bool)
    ensures
        r == safe_stem(stem@),
{
    let chars: Vec<char> = text::to_chars(stem);
    let mut i: usize = 0;
    while i < chars.len()
        invariant
            chars@ == stem@,
            i <= chars@.len(),
            forall|j: int|
                0 <= j < i ==> is_alphanumeric(#[trigger] stem@[j]) || stem@[j] == '_' || stem@[j]
                    == '-',
        decreases chars@.len() - i,
    {
        let c: char = chars[i];
        if !alphanumeric(c) && c != '_' && c != '-' {
            assert(!is_alphanumeric(stem@[i as int]) && stem@[i as int] != '_' && stem@[i as int]
                != '-');
            return false;
        }
        i = i + 1;
    }
    chars.len() > 0
}

/// The place of the first white space, or that behind the end.
pub open spec fn space_place(s: Seq<char>, from: int) -> int
    decreases s.len() - from,
{
    if from < 0 || from >= s.len() {
        s.len() as int
    } else if text::is_white_space(s[from]) {
        from
    } else {
        space_place(s, from + 1)
    }
}

/// The place of the first colon, or that behind the end.
pub open spec fn colon_place(s: Seq<char>, from: int) -> int
    decreases s.len() - from,
{
    if from < 0 || from >= s.len() {
        s.len() as int
    } else if s[from] == ':' {
        from
    } else {
        colon_place(s, from + 1)
    }
}

/// The name and the value of a line of the head: what stands before and behind
/// the first white space, colons at the end of the name left out, or else
/// before and behind the first colon.
pub open spec fn directive_of(s: Seq<char>) -> (Seq<char>, Seq<char>) {
    let space = space_place(s, 0);
    let colon = colon_place(s, 0);
    if space < s.len() {
        (text::without_trailing(s.take(space), ':'), text::trimmed(s.skip(space + 1)))
    } else if colon < s.len() {
        (s.take(colon), text::trimmed(s.skip(colon + 1)))
    } else {
        (s, Seq::empty())
    }
}

/// The name and the value of a line of the head.
pub fn parse_directive(directive: &str) -> (r: (String, String))
    ensures
        (r.0@, r.1@) == directive_of(directive@),
{
    let chars: Vec<char> = text::to_chars(directive);
    let count: usize = chars.len();
    let mut space: usize = 0;
    while space < count && !text::white_space(chars[space])
        invariant
            chars@ == directive@,
            count == chars@.len(),
            space <= count,
            space_place(directive@, 0) == space_place(directive@, space as int),
        decreases count - space,
    {
        space = space + 1;
    }
    if space < count {
        let name: String = text::slice_chars(&chars, 0, space);
        let rest: String = text::slice_chars(&chars, space + 1, count);
        proof {
            assert(directive@.subrange(0, space as int) =~= directive@.take(space as int));
            assert(directive@.subrange(space + 1, count as int) =~= directive@.skip(space + 1));
        }
        return (text::strip_trailing(name.as_str(), ':'), text::trim(rest.as_str()));
    }
    let mut colon: usize = 0;
    while colon < count && chars[colon] != ':'
        invariant
            chars@ == directive@,
            count == chars@.len(),
            colon <= count,
            colon_place(directive@, 0) == colon_place(directive@, colon as int),
        decreases count - colon,
    {
        colon = colon + 1;
    }
    if colon < count {
        let name: String = text::slice_chars(&chars, 0, colon);
        let rest: String = text::slice_chars(&chars, colon + 1, count);
        proof {
            assert(directive@.subrange(0, colon as int) =~= directive@.take(colon as int));
            assert(directive@.subrange(colon + 1, count as int) =~= directive@.skip(colon + 1));
        }
        return (name, text::trim(rest.as_str()));
    }
    (directive.to_string(), String::new())
}

/// Whether there is white space in a text.
pub open spec fn has_space(s: Seq<char>) -> bool {
    exists|i: int| 0 <= i < s.len() && text::is_white_space(#[trigger] s[i])
}

fn contains_space(s: &str) -> (r: bool)
    ensures
        r == has_space(s@),
{
    let chars: Vec<char> = text::to_chars(s);
    let mut i: usize = 0;
    while i < chars.len()
        invariant
            chars@ == s@,
            i <= chars@.len(),
            forall|j: int| 0 <= j < i ==> !text::is_white_space(#[trigger] s@[j]),
        decreases chars@.len() - i,
    {
        if text::white_space(chars[i]) {
            assert(text::is_white_space(s@[i as int]));
            return true;
        }
        i = i + 1;
    }
    false
}

/// What a line of the head makes of what was read before it.
pub open spec fn with_directive(head: HeadView, name: Seq<char>, value: Seq<char>) -> Result<
    HeadView,
    ErrorView,
> {
    if name == "label"@ {
        if value.len() == 0 {
            Err(ErrorView::EmptyLabel)
        } else {
            Ok(HeadView { label: Some(value), ..head })
        }
    } else if name == "id"@ {
        if value.len() == 0 {
            Err(ErrorView::EmptyId)
        } else if !safe_id(value) {
            Err(ErrorView::InvalidId(value))
        } else {
            Ok(HeadView { id: Some(value), ..head })
        }
    } else if name == "prefer"@ {
        if value.len() == 0 {
            Err(ErrorView::EmptyPrefer)
        } else if !"http://"@.is_prefix_of(value) && !"https://"@.is_prefix_of(value) {
            Err(ErrorView::PreferNotHttp)
        } else if has_space(value) {
            Err(ErrorView::InvalidPrefer(value))
        } else {
            Ok(HeadView { prefer: head.prefer.push(value), ..head })
        }
    } else {
        Err(ErrorView::UnknownDirective(name))
    }
}

fn take_directive(head: &mut Head, name: String, value: String) -> (r: Option<PresetError>)
    ensures
        match with_directive(old(head).view(), name@, value@) {
            Ok(after) => r is None && final(head).view() == after,
            Err(e) => r matches Some(error) && error@ == e,
        },
{
    let ghost before = head.view();
    if text::same(name.as_str(), "label") {
        if text::is_empty(value.as_str()) {
            return Some(PresetError::EmptyLabel);
        }
        head.label = Some(value);
        return None;
    }
    if text::same(name.as_str(), "id") {
        if text::is_empty(value.as_str()) {
            return Some(PresetError::EmptyId);
        }
        if !is_safe_id(value.as_str()) {
            return Some(PresetError::InvalidId(value));
        }
        head.id = Some(value);
        return None;
    }
    if text::same(name.as_str(), "prefer") {
        if text::is_empty(value.as_str()) {
            return Some(PresetError::EmptyPrefer);
        }
        if !text::starts_with(value.as_str(), "http://") && !text::starts_with(
            value.as_str(),
            "https://",
        ) {
            return Some(PresetError::PreferNotHttp);
        }
        if contains_space(value.as_str()) {
            return Some(PresetError::InvalidPrefer(value));
        }
        head.prefer.push(value);
        proof {
            assert(head.view().prefer =~= before.prefer.push(value@));
        }
        return None;
    }
    Some(PresetError::UnknownDirective(name))
}

/// A text without a mark at its front, however often it stands there.
pub open spec fn without_marks(s: Seq<char>) -> Seq<char>
    decreases s.len(),
{
    if s.len() >= 4 && "// @"@.is_prefix_of(s) {
        without_marks(s.skip(4))
    } else {
        s
    }
}

fn strip_marks(s: &str) -> (r: String)
    ensures
        r@ == without_marks(s@),
{
    let mut rest: String = s.to_string();
    while text::starts_with(rest.as_str(), "// @")
        invariant
            without_marks(s@) == without_marks(rest@),
        decreases rest@.len(),
    {
        proof {
            reveal_strlit("// @");
        }
        let chars: Vec<char> = text::to_chars(rest.as_str());
        proof {
            assert(rest@.subrange(4, rest@.len() as int) =~= rest@.skip(4));
        }
        rest = text::slice_chars(&chars, 4, chars.len());
    }
    rest
}

/// What the head of some lines says, from some line on, and the place of the
/// first line of the script: lines that begin with a mark, and blank ones,
/// belong to the head.
pub open spec fn head_from(lines: Seq<Seq<char>>, from: int, head: HeadView) -> Result<
    (HeadView, int),
    ErrorView,
>
    decreases lines.len() - from,
{
    if from < 0 || from >= lines.len() {
        Ok((head, lines.len() as int))
    } else {
        let line = text::trimmed(lines[from]);
        if "// @"@.is_prefix_of(line) {
            let (name, value) = directive_of(text::trimmed(without_marks(line)));
            match with_directive(head, name, value) {
                Ok(more) => head_from(lines, from + 1, more),
                Err(e) => Err(e),
            }
        } else if line.len() == 0 {
            head_from(lines, from + 1, head)
        } else {
            Ok((head, from))
        }
    }
}

/// Lines with line feeds between them.
pub open spec fn joined(lines: Seq<Seq<char>>) -> Seq<char>
    decreases lines.len(),
{
    if lines.len() == 0 {
        Seq::empty()
    } else if lines.len() == 1 {
        lines[0]
    } else {
        joined(lines.drop_last()) + "\n"@ + lines.last()
    }
}

/// Whether a text ends in a line feed.
pub open spec fn ends_line(s: Seq<char>) -> bool {
    s.len() > 0 && s.last() == '\n'
}

/// The script: its lines, and a line feed at its end where the file had one.
pub open spec fn script(source: Seq<char>, lines: Seq<Seq<char>>) -> Seq<char> {
    let body = joined(lines);
    if ends_line(source) && !ends_line(body) {
        body.push('\n')
    } else {
        body
    }
}

/// An identifier made of a file's name: with hyphens for underscores.
pub open spec fn id_of_stem(stem: Seq<char>) -> Seq<char> {
    stem.map_values(
        |c: char|
            if c == '_' {
                '-'
            } else {
                c
            },
    )
}

/// Whether what was read of a script is what its file says.
pub open spec fn is_preset(
    r: Result<(PresetMeta, String), PresetError>,
    source: Seq<char>,
    stem: Seq<char>,
) -> bool {
    let lines = text::lines_of(source);
    let nothing = HeadView { id: None, label: None, prefer: Seq::empty() };
    match head_from(lines, 0, nothing) {
        Err(e) => r matches Err(error) && error@ == e,
        Ok((head, start)) => {
            let id = match head.id {
                Some(id) => id,
                None => id_of_stem(stem),
            };
            if !safe_id(id) {
                r matches Err(error) && error@ == ErrorView::InvalidPresetId(id)
            } else {
                match r {
                    Ok((meta, body)) => {
                        &&& meta.id@ == id
                        &&& meta.label@ == match head.label {
                            Some(label) => label,
                            None => id,
                        }
                        &&& text::views(meta.prefer@) == head.prefer
                        &&& body@ == script(source, lines.skip(start))
                    },
                    Err(_) => false,
                }
            }
        },
    }
}

fn join_from(lines: &Vec<String>, from: usize) -> (r: String)
    requires
        from <= lines@.len(),
    ensures
        r@ == joined(text::views(lines@).skip(from as int)),
{
    let ghost all = text::views(lines@).skip(from as int);
    let mut out: String = String::new();
    let mut i: usize = from;
    proof {
        assert(all.take(0) =~= Seq::empty());
    }
    while i < lines.len()
        invariant
            from <= i <= lines@.len(),
            all == text::views(lines@).skip(from as int),
            out@ == joined(all.take(i - from)),
        decreases lines@.len() - i,
    {
        proof {
            let longer = all.take(i - from + 1);
            assert(longer.drop_last() =~= all.take(i - from));
            assert(longer.last() == lines@[i as int]@);
        }
        if i == from {
            out = lines[i].clone();
        } else {
            out = text::concat3(out.as_str(), "\n", lines[i].as_str());
        }
        i = i + 1;
    }
    proof {
        assert(all.take(i - from) =~= all);
    }
    out
}

fn line_ended(s: &str) -> (r: bool)
    ensures
        r == ends_line(s@),
{
    let chars: Vec<char> = text::to_chars(s);
    chars.len() > 0 && chars[chars.len() - 1] == '\n'
}

fn hyphenated(stem: &str) -> (r: String)
    ensures
        r@ == id_of_stem(stem@),
{
    let chars: Vec<char> = text::to_chars(stem);
    let mut out: String = String::new();
    let mut i: usize = 0;
    while i < chars.len()
        invariant
            chars@ == stem@,
            i <= chars@.len(),
            out@ == id_of_stem(stem@.take(i as int)),
        decreases chars@.len() - i,
    {
        let ghost before = out@;
        if chars[i] == '_' {
            out.push('-');
        } else {
            out.push(chars[i]);
        }
        proof {
            assert(out@ =~= id_of_stem(stem@.take(i as int + 1)));
        }
        i = i + 1;
    }
    proof {
        assert(stem@.take(i as int) =~= stem@);
    }
    out
}

fn read_head(lines: &Vec<String>) -> (r: Result<(Head, usize), PresetError>)
    ensures
        ({
            let nothing = HeadView { id: None, label: None, prefer: Seq::empty() };
            match (r, head_from(text::views(lines@), 0, nothing)) {
                (Ok((head, start)), Ok((wanted, at))) => head.view() == wanted && start == at
                    && start <= lines@.len(),
                (Err(error), Err(e)) => error@ == e,
                _ => false,
            }
        }),
{
    let ghost all = text::views(lines@);
    let ghost nothing = HeadView { id: None, label: None, prefer: Seq::empty() };
    let mut head: Head = Head { id: None, label: None, prefer: Vec::new() };
    let mut i: usize = 0;
    proof {
        assert(head.view() =~= nothing);
    }
    while i < lines.len()
        invariant
            i <= lines@.len(),
            all == text::views(lines@),
            nothing == (HeadView { id: None, label: None, prefer: Seq::empty() }),
            head_from(all, 0, nothing) == head_from(all, i as int, head.view()),
        decreases lines@.len() - i,
    {
        let line: String = text::trim(lines[i].as_str());
        proof {
            assert(all[i as int] == lines@[i as int]@);
        }
        if text::starts_with(line.as_str(), "// @") {
            let bare: String = strip_marks(line.as_str());
            let directive: String = text::trim(bare.as_str());
            let (name, value): (String, String) = parse_directive(directive.as_str());
            if let Some(error) = take_directive(&mut head, name, value) {
                return Err(error);
            }
        } else if !text::is_empty(line.as_str()) {
            return Ok((head, i));
        }
        i = i + 1;
    }
    Ok((head, i))
}

/// What a script's file says of the script, and the script itself, or why it is
/// not taken.
pub fn parse_preset_source(source: &str, stem: &str) -> (r: Result<
    (PresetMeta, String),
    PresetError,
>)
    ensures
        is_preset(r, source@, stem@),
{
    let lines: Vec<String> = text::split_lines(source);
    let (head, start): (Head, usize) = match read_head(&lines) {
        Ok(found) => found,
        Err(error) => {
            return Err(error);
        },
    };
    let mut body: String = join_from(&lines, start);
    if line_ended(source) && !line_ended(body.as_str()) {
        body.push('\n');
    }
    let id: String = match head.id {
        Some(id) => id,
        None => hyphenated(stem),
    };
    if !is_safe_id(id.as_str()) {
        return Err(PresetError::InvalidPresetId(id));
    }
    let label: String = match head.label {
        Some(label) => label,
        None => id.clone(),
    };
    Ok((PresetMeta { id, label, prefer: head.prefer }, body))
}

/// The identifier of a script that was taken is one.
pub proof fn law_taken_script_has_an_identifier(
    meta: PresetMeta,
    body: String,
    source: Seq<char>,
    stem: Seq<char>,
)
    requires
        is_preset(Ok((meta, body)), source, stem),
    ensures
        safe_id(meta.id@),
{
}

/// An address by which two scripts are told apart: without space around it,
/// without slashes at its end, in lower case.
pub open spec fn normalized_url(value: Seq<char>) -> Seq<char> {
    text::ascii_lowered(text::without_trailing(text::trimmed(value), '/'))
}

/// An address by which two scripts are told apart.
pub fn normalize_prefer_url(value: &str) -> (r: String)
    ensures
        r@ == normalized_url(value@),
{
    let bare: String = text::trim(value);
    let cut: String = text::strip_trailing(bare.as_str(), '/');
    text::to_ascii_lower(cut.as_str())
}

/// A text as it stands in a string of the source.
pub open spec fn escaped(s: Seq<char>) -> Seq<char>
    decreases s.len(),
{
    if s.len() == 0 {
        Seq::empty()
    } else {
        let c = s.last();
        escaped(s.drop_last()) + if c == '\\' {
            "\\\\"@
        } else if c == '"' {
            "\\\""@
        } else if c == '\n' {
            "\\n"@
        } else if c == '\r' {
            "\\r"@
        } else {
            seq![c]
        }
    }
}

/// A text as it stands in a string of the source.
pub fn escape_rust_str(value: &str) -> (r: String)
    ensures
        r@ == escaped(value@),
{
    let chars: Vec<char> = text::to_chars(value);
    let mut out: String = String::new();
    let mut i: usize = 0;
    while i < chars.len()
        invariant
            chars@ == value@,
            i <= chars@.len(),
            out@ == escaped(value@.take(i as int)),
        decreases chars@.len() - i,
    {
        proof {
            assert(value@.take(i as int + 1).drop_last() =~= value@.take(i as int));
        }
        let ghost before = out@;
        let c: char = chars[i];
        if c == '\\' {
            out = text::concat(out.as_str(), "\\\\");
        } else if c == '"' {
            out = text::concat(out.as_str(), "\\\"");
        } else if c == '\n' {
            out = text::concat(out.as_str(), "\\n");
        } else if c == '\r' {
            out = text::concat(out.as_str(), "\\r");
        } else {
            out.push(c);
            proof {
                assert(before.push(c) =~= before + seq![c]);
            }
        }
        i = i + 1;
    }
    proof {
        assert(value@.take(i as int) =~= value@);
    }
    out
}

/// No quotation mark and no line end stands bare in an escaped text.
pub proof fn law_escaped_text_stays_in_its_line(s: Seq<char>, i: int)
    requires
        0 <= i < escaped(s).len(),
    ensures
        escaped(s)[i] != '\n',
        escaped(s)[i] != '\r',
        escaped(s)[i] == '"' ==> i > 0 && escaped(s)[i - 1] == '\\',
    decreases s.len(),
{
    reveal_strlit("\\\\");
    reveal_strlit("\\\"");
    reveal_strlit("\\n");
    reveal_strlit("\\r");
    let earlier = escaped(s.drop_last());
    if i < earlier.len() {
        law_escaped_text_stays_in_its_line(s.drop_last(), i);
    }
}

/// Strings as a list in the source.
pub open spec fn listed(values: Seq<String>) -> Seq<char>
    decreases values.len(),
{
    if values.len() == 0 {
        Seq::empty()
    } else if values.len() == 1 {
        "\""@ + escaped(values[0]@) + "\""@
    } else {
        listed(values.drop_last()) + ", "@ + ("\""@ + escaped(values.last()@) + "\""@)
    }
}

/// Strings as a list in the source.
pub fn rust_str_slice(values: &Vec<String>) -> (r: String)
    ensures
        r@ == "&["@ + listed(values@) + "]"@,
{
    let mut inner: String = String::new();
    let mut i: usize = 0;
    while i < values.len()
        invariant
            i <= values@.len(),
            inner@ == listed(values@.take(i as int)),
        decreases values@.len() - i,
    {
        proof {
            let longer = values@.take(i as int + 1);
            assert(longer.drop_last() =~= values@.take(i as int));
            assert(longer.last() == values@[i as int]);
        }
        let quoted: String = text::concat3(
            "\"",
            escape_rust_str(values[i].as_str()).as_str(),
            "\"",
        );
        if i == 0 {
            inner = quoted;
        } else {
            inner = text::concat3(inner.as_str(), ", ", quoted.as_str());
        }
        i = i + 1;
    }
    proof {
        assert(values@.take(i as int) =~= values@);
    }
    text::concat3("&[", inner.as_str(), "]")
}

/// Why a set of scripts is not taken: two of them have the same identifier, or
/// are meant for the same address.
#[derive(Debug, Clone, Copy, PartialEq, Eq, Structural)]
pub enum DuplicateError {
    /// The script at some place has an identifier that is taken.
    Id(usize),
    /// The script at some place is meant, at some place of its list, for an
    /// address that is taken.
    Prefer(usize, usize),
}

/// Whether one of some texts is a given one.
pub open spec fn is_taken(seen: Seq<Seq<char>>, wanted: Seq<char>) -> bool {
    exists|i: int| 0 <= i < seen.len() && #[trigger] seen[i] == wanted
}

/// The place of the first address of a list that is taken, from some place on,
/// or the addresses that are taken after it.
pub open spec fn prefers_from(
    seen: Seq<Seq<char>>,
    prefer: Seq<Seq<char>>,
    from: int,
) -> Result<Seq<Seq<char>>, int>
    decreases prefer.len() - from,
{
    if from < 0 || from >= prefer.len() {
        Ok(seen)
    } else {
        let url = normalized_url(prefer[from]);
        if is_taken(seen, url) {
            Err(from)
        } else {
            prefers_from(seen.push(url), prefer, from + 1)
        }
    }
}

/// The first reason why a set of scripts is not taken, from some script on,
/// what the earlier ones have being known.
pub open spec fn duplicate_from(
    metas: Seq<PresetMeta>,
    from: int,
    ids: Seq<Seq<char>>,
    prefers: Seq<Seq<char>>,
) -> Option<DuplicateError>
    decreases metas.len() - from,
{
    if from < 0 || from >= metas.len() {
        None
    } else if is_taken(ids, metas[from].id@) {
        Some(DuplicateError::Id(from as usize))
    } else {
        match prefers_from(prefers, text::views(metas[from].prefer@), 0) {
            Ok(more) => duplicate_from(metas, from + 1, ids.push(metas[from].id@), more),
            Err(place) => Some(DuplicateError::Prefer(from as usize, place as usize)),
        }
    }
}

fn taken(seen: &Vec<String>, wanted: &str) -> (r: bool)
    ensures
        r == is_taken(text::views(seen@), wanted@),
{
    let ghost all = text::views(seen@);
    let mut i: usize = 0;
    while i < seen.len()
        invariant
            i <= seen@.len(),
            all == text::views(seen@),
            forall|j: int| 0 <= j < i ==> #[trigger] all[j] != wanted@,
        decreases seen@.len() - i,
    {
        if text::same(seen[i].as_str(), wanted) {
            assert(all[i as int] == wanted@);
            return true;
        }
        assert(all[i as int] == seen@[i as int]@);
        i = i + 1;
    }
    false
}

fn take_prefers(seen: &mut Vec<String>, prefer: &Vec<String>) -> (r: Option<usize>)
    ensures
        match prefers_from(text::views(old(seen)@), text::views(prefer@), 0) {
            Ok(more) => r is None && text::views(final(seen)@) == more,
            Err(place) => r matches Some(i) && i == place,
        },
{
    let ghost before = text::views(seen@);
    let ghost all = text::views(prefer@);
    let mut i: usize = 0;
    while i < prefer.len()
        invariant
            i <= prefer@.len(),
            all == text::views(prefer@),
            before == text::views(old(seen)@),
            prefers_from(before, all, 0) == prefers_from(text::views(seen@), all, i as int),
        decreases prefer@.len() - i,
    {
        let ghost present = text::views(seen@);
        proof {
            assert(all[i as int] == prefer@[i as int]@);
        }
        let url: String = normalize_prefer_url(prefer[i].as_str());
        if taken(seen, url.as_str()) {
            return Some(i);
        }
        seen.push(url);
        proof {
            assert(text::views(seen@) =~= present.push(url@));
        }
        i = i + 1;
    }
    None
}

/// Whether a set of scripts is taken: none has the identifier of the built-in
/// one or of another, and no two are meant for the same address.
pub fn check_presets(metas: &Vec<PresetMeta>) -> (r: Result<(), DuplicateError>)
    ensures
        match r {
            Ok(_) => duplicate_from(metas@, 0, seq!["default"@], Seq::empty()) is None,
            Err(e) => duplicate_from(metas@, 0, seq!["default"@], Seq::empty()) == Some(e),
        },
{
    let mut ids: Vec<String> = Vec::new();
    ids.push("default".to_string());
    let mut prefers: Vec<String> = Vec::new();
    let mut i: usize = 0;
    proof {
        assert(text::views(ids@) =~= seq!["default"@]);
        assert(text::views(prefers@) =~= Seq::empty());
    }
    while i < metas.len()
        invariant
            i <= metas@.len(),
            duplicate_from(metas@, 0, seq!["default"@], Seq::empty()) == duplicate_from(
                metas@,
                i as int,
                text::views(ids@),
                text::views(prefers@),
            ),
        decreases metas@.len() - i,
    {
        let ghost earlier = text::views(ids@);
        if taken(&ids, metas[i].id.as_str()) {
            return Err(DuplicateError::Id(i));
        }
        if let Some(place) = take_prefers(&mut prefers, &metas[i].prefer) {
            return Err(DuplicateError::Prefer(i, place));
        }
        ids.push(metas[i].id.clone());
        proof {
            assert(text::views(ids@) =~= earlier.push(metas@[i as int].id@));
        }
        i = i + 1;
    }
    Ok(())
}

/// A line of the head sets what it is called after and leaves the rest: a label
/// the label, an identifier the identifier, an address one more address. A
/// line without a value is refused, and so is one of any other name.
pub proof fn law_directive_sets_what_it_names(head: HeadView, name: Seq<char>, value: Seq<char>)
    ensures
        value.len() == 0 ==> with_directive(head, name, value) is Err,
        name != "label"@ && name != "id"@ && name != "prefer"@ ==> with_directive(
            head,
            name,
            value,
        ) == Err::<HeadView, ErrorView>(ErrorView::UnknownDirective(name)),
        name == "label"@ && value.len() > 0 ==> (with_directive(head, name, value) matches Ok(h)
            && h.label == Some(value) && h.id == head.id && h.prefer == head.prefer),
        name == "id"@ && value.len() > 0 ==> (with_directive(head, name, value) is Ok <==> safe_id(
            value,
        )),
        name == "id"@ ==> (with_directive(head, name, value) matches Ok(h) ==> h.id == Some(value)
            && h.label == head.label && h.prefer == head.prefer),
        name == "prefer"@ ==> (with_directive(head, name, value) is Ok <==> ("http://"@.is_prefix_of(
            value,
        ) || "https://"@.is_prefix_of(value)) && !has_space(value)),
        name == "prefer"@ ==> (with_directive(head, name, value) matches Ok(h) ==> h.prefer
            == head.prefer.push(value) && h.id == head.id && h.label == head.label),
{
    reveal_strlit("label");
    reveal_strlit("id");
    reveal_strlit("prefer");
    reveal_strlit("http://");
    reveal_strlit("https://");
    assert("label"@.len() == 5);
    assert("id"@.len() == 2);
    assert("prefer"@.len() == 6);
    assert("http://"@.len() == 7);
    assert("https://"@.len() == 8);
}

/// A script without a label is called after its identifier, and one without an
/// identifier after its file, with hyphens for underscores. It is taken only
/// with an identifier of letters, digits and hyphens.
pub proof fn law_script_is_called_after_its_file(
    r: Result<(PresetMeta, String), PresetError>,
    source: Seq<char>,
    stem: Seq<char>,
    head: HeadView,
    start: int,
)
    requires
        is_preset(r, source, stem),
        head_from(
            text::lines_of(source),
            0,
            HeadView { id: None, label: None, prefer: Seq::empty() },
        ) == Ok::<(HeadView, int), ErrorView>((head, start)),
    ensures
        head.id is Some && safe_id(head.id->0) ==> r is Ok,
        head.id is None && safe_stem(stem) ==> r is Ok,
        r matches Ok((meta, body)) ==> {
            &&& head.id matches Some(id) ==> meta.id@ == id
            &&& head.id is None ==> meta.id@.len() == stem.len() && forall|i: int|
                0 <= i < stem.len() ==> #[trigger] meta.id@[i] == if stem[i] == '_' {
                    '-'
                } else {
                    stem[i]
                }
            &&& head.label matches Some(label) ==> meta.label@ == label
            &&& head.label is None ==> meta.label@ == meta.id@
            &&& text::views(meta.prefer@) == head.prefer
        },
{
    if head.id is None && safe_stem(stem) {
        let id = id_of_stem(stem);
        assert(id.len() == stem.len());
        assert forall|i: int| 0 <= i < id.len() implies is_alphanumeric(#[trigger] id[i]) || id[i]
            == '-' by {
            assert(is_alphanumeric(stem[i]) || stem[i] == '_' || stem[i] == '-');
        }
    }
}

/// The name of a line ends at its first white space, or else at its first
/// colon; what is behind it is the value.
pub proof fn law_directive_is_cut_at_space_or_colon(name: Seq<char>, value: Seq<char>, c: char)
    requires
        name.len() > 0,
        !has_space(name),
        !name.contains(':'),
        text::is_white_space(c) || (c == ':' && !has_space(value)),
    ensures
        directive_of(name.push(c) + value) == (name, text::trimmed(value)),
        directive_of(name) == (name, Seq::<char>::empty()),
{
    let s = name.push(c) + value;
    assert forall|i: int| 0 <= i < name.len() implies !text::is_white_space(name[i]) && name[i]
        != ':' by {
        if name[i] == ':' {
            assert(name.contains(':'));
        }
    }
    lemma_places(name, 0);
    assert(s[name.len() as int] == c);
    assert(s.skip((name.len() + 1) as int) =~= value);
    assert(s.take(name.len() as int) =~= name);
    if text::is_white_space(c) {
        lemma_space_found(s, name.len() as int, 0);
        assert(name[name.len() - 1] != ':');
        assert(text::without_trailing(name, ':') == name);
    } else {
        lemma_colon_found(s, name.len() as int, 0);
        assert forall|i: int| 0 <= i < s.len() implies !text::is_white_space(s[i]) by {
            if i > name.len() {
                assert(s[i] == value[i - name.len() - 1]);
            }
        }
        lemma_no_space(s, 0);
    }
}

/// A text without white space has none, and one without a colon none.
proof fn lemma_places(s: Seq<char>, from: int)
    requires
        0 <= from <= s.len(),
        forall|i: int| 0 <= i < s.len() ==> !text::is_white_space(s[i]) && s[i] != ':',
    ensures
        space_place(s, from) == s.len(),
        colon_place(s, from) == s.len(),
    decreases s.len() - from,
{
    if from < s.len() {
        lemma_places(s, from + 1);
    }
}

/// A text without white space has none.
proof fn lemma_no_space(s: Seq<char>, from: int)
    requires
        0 <= from <= s.len(),
        forall|i: int| 0 <= i < s.len() ==> !text::is_white_space(s[i]),
    ensures
        space_place(s, from) == s.len(),
    decreases s.len() - from,
{
    if from < s.len() {
        lemma_no_space(s, from + 1);
    }
}

/// The first white space is found.
proof fn lemma_space_found(s: Seq<char>, at: int, from: int)
    requires
        0 <= from <= at < s.len(),
        text::is_white_space(s[at]),
        forall|i: int| from <= i < at ==> !text::is_white_space(s[i]),
    ensures
        space_place(s, from) == at,
    decreases at - from,
{
    if from < at {
        lemma_space_found(s, at, from + 1);
    }
}

/// The first colon is found.
proof fn lemma_colon_found(s: Seq<char>, at: int, from: int)
    requires
        0 <= from <= at < s.len(),
        s[at] == ':',
        forall|i: int| from <= i < at ==> s[i] != ':',
    ensures
        colon_place(s, from) == at,
    decreases at - from,
{
    if from < at {
        lemma_colon_found(s, at, from + 1);
    }
}

/// Where a set of scripts is taken, no script from some place on has an
/// identifier that was taken before it, by the earlier ones or another of the
/// set.
pub proof fn law_taken_scripts_have_their_own_identifiers(
    metas: Seq<PresetMeta>,
    from: int,
    ids: Seq<Seq<char>>,
    prefers: Seq<Seq<char>>,
)
    requires
        0 <= from <= metas.len(),
        duplicate_from(metas, from, ids, prefers) is None,
    ensures
        forall|i: int| from <= i < metas.len() ==> !is_taken(ids, (#[trigger] metas[i]).id@),
        forall|i: int, j: int|
            from <= i < j < metas.len() ==> (#[trigger] metas[i]).id@ != (#[trigger] metas[j]).id@,
    decreases metas.len() - from,
{
    if from < metas.len() {
        let more = prefers_from(prefers, text::views(metas[from].prefer@), 0)->Ok_0;
        let next = ids.push(metas[from].id@);
        law_taken_scripts_have_their_own_identifiers(metas, from + 1, next, more);
        assert(next[ids.len() as int] == metas[from].id@);
        assert forall|i: int| from <= i < metas.len() implies !is_taken(
            ids,
            (#[trigger] metas[i]).id@,
        ) by {
            if i > from && is_taken(ids, metas[i].id@) {
                let k = choose|k: int| 0 <= k < ids.len() && #[trigger] ids[k] == metas[i].id@;
                assert(next[k] == metas[i].id@);
            }
        }
    }
}

/// Two addresses that differ in case, space around them or slashes at their end
/// are the same.
pub proof fn law_addresses_are_told_apart_by_more_than_case(value: Seq<char>)
    ensures
        normalized_url(text::trimmed(value)) == normalized_url(value),
        !ends_with_slash(normalized_url(value)),
        forall|i: int|
            0 <= i < normalized_url(value).len() ==> !('A' <= #[trigger] normalized_url(value)[i]
                <= 'Z'),
{
    text::law_trim_is_settled(value);
    let bare = text::without_trailing(text::trimmed(value), '/');
    lemma_no_trailing(text::trimmed(value), '/');
    text::law_lower_case_changes_capitals_alone(bare);
    if bare.len() > 0 {
        assert(normalized_url(value).last() == text::ascii_lowered(bare)[bare.len() - 1]);
    }
}

/// Whether a text ends in a slash.
pub open spec fn ends_with_slash(s: Seq<char>) -> bool {
    s.len() > 0 && s.last() == '/'
}

/// What is left without a character at the end does not end with it.
proof fn lemma_no_trailing(s: Seq<char>, c: char)
    ensures
        text::without_trailing(s, c).len() > 0 ==> text::without_trailing(s, c).last() != c,
    decreases s.len(),
{
    if s.len() > 0 && s.last() == c {
        lemma_no_trailing(s.drop_last(), c);
    }
}

/// The addresses of a list are taken exactly where none of them is taken
/// already, in the form by which they are told apart, by another or by one
/// before it; then all of them are.
pub proof fn law_addresses_are_taken_once(
    seen: Seq<Seq<char>>,
    prefer: Seq<Seq<char>>,
    from: int,
)
    requires
        0 <= from <= prefer.len(),
    ensures
        prefers_from(seen, prefer, from) matches Ok(more) ==> {
            &&& forall|i: int|
                from <= i < prefer.len() ==> !is_taken(seen, normalized_url(#[trigger] prefer[i]))
            &&& forall|i: int, j: int|
                from <= i < j < prefer.len() ==> normalized_url(#[trigger] prefer[i])
                    != normalized_url(#[trigger] prefer[j])
            &&& forall|i: int|
                from <= i < prefer.len() ==> is_taken(more, normalized_url(#[trigger] prefer[i]))
            &&& forall|i: int| 0 <= i < seen.len() ==> is_taken(more, #[trigger] seen[i])
        },
        prefers_from(seen, prefer, from) matches Err(i) ==> from <= i < prefer.len(),
    decreases prefer.len() - from,
{
    if from < prefer.len() {
        let url = normalized_url(prefer[from]);
        let next = seen.push(url);
        law_addresses_are_taken_once(next, prefer, from + 1);
        assert(next[seen.len() as int] == url);
        if prefers_from(seen, prefer, from) is Ok {
            let more = prefers_from(seen, prefer, from)->Ok_0;
            assert(is_taken(more, next[seen.len() as int]));
            assert forall|i: int| from <= i < prefer.len() implies !is_taken(
                seen,
                normalized_url(#[trigger] prefer[i]),
            ) by {
                if i > from && is_taken(seen, normalized_url(prefer[i])) {
                    let k = choose|k: int|
                        0 <= k < seen.len() && #[trigger] seen[k] == normalized_url(prefer[i]);
                    assert(next[k] == normalized_url(prefer[i]));
                }
            }
            assert forall|i: int, j: int| from <= i < j < prefer.len() implies normalized_url(
                #[trigger] prefer[i],
            ) != normalized_url(#[trigger] prefer[j]) by {
                if i == from && normalized_url(prefer[j]) == url {
                    assert(is_taken(next, normalized_url(prefer[j])));
                }
            }
            assert forall|i: int| 0 <= i < seen.len() implies is_taken(more, #[trigger] seen[i]) by {
                assert(next[i] == seen[i]);
            }
        }
    }
}

/// The head of a script ends at its first line that is neither blank nor begins
/// with a mark; blank lines in it say nothing.
pub proof fn law_head_ends_at_the_script(lines: Seq<Seq<char>>, from: int, head: HeadView)
    requires
        0 <= from <= lines.len(),
    ensures
        head_from(lines, from, head) matches Ok((after, start)) ==> {
            &&& from <= start <= lines.len()
            &&& start < lines.len() ==> text::trimmed(lines[start]).len() > 0
                && !"// @"@.is_prefix_of(text::trimmed(lines[start]))
            &&& forall|i: int|
                from <= i < start ==> text::trimmed(#[trigger] lines[i]).len() == 0
                    || "// @"@.is_prefix_of(text::trimmed(lines[i]))
        },
        from < lines.len() && text::trimmed(lines[from]).len() == 0 ==> head_from(
            lines,
            from,
            head,
        ) == head_from(lines, from + 1, head),
    decreases lines.len() - from,
{
    reveal_strlit("// @");
    if from < lines.len() {
        let line = text::trimmed(lines[from]);
        if "// @"@.is_prefix_of(line) {
            let (name, value) = directive_of(text::trimmed(without_marks(line)));
            if let Ok(more) = with_directive(head, name, value) {
                law_head_ends_at_the_script(lines, from + 1, more);
            }
        } else if line.len() == 0 {
            law_head_ends_at_the_script(lines, from + 1, head);
        }
    }
}

} // verus!
