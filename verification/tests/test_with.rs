use serde_yml::de::deserialize;
use serde_yml::document::{to_value, Convention};
use serde_yml::encode::{nesting_of, to_events};
use serde_yml::error::Error;
use serde_yml::event::{Event, Scalar};
use serde_yml::number::Number;
use serde_yml::resolve::untagged_scalar;
use serde_yml::scalar::ScalarStyle;
use serde_yml::ser::{MaybeTag, Serializer};
use serde_yml::shape::{Payload, Shape};
use serde_yml::tagged::check_for_tag;
use serde_yml::value::Value;
use serde_yml::with::rewrite;
use serde_yml::with::singleton_map::SingletonMap;
use serde_yml::with::singleton_map_recursive::SingletonMapRecursive;
use serde_yml::with::{
    nested_singleton_map, singleton_map, singleton_map_optional, singleton_map_recursive,
    singleton_map_with,
};

// --- a plain block-style writer for event streams, for the tests below ---

struct Out {
    text: String,
    column: isize,
    whitespace: bool,
    indention: bool,
}

impl Out {
    fn put(&mut self, c: char) {
        self.text.push(c);
        self.column += 1;
    }

    fn put_break(&mut self) {
        self.text.push('\n');
        self.column = 0;
    }

    fn write_indent(&mut self, indent: isize) {
        let indent = if indent >= 0 { indent } else { 0 };
        if !self.indention
            || self.column > indent
            || (self.column == indent && !self.whitespace)
        {
            self.put_break();
        }
        while self.column < indent {
            self.put(' ');
        }
        self.whitespace = true;
        self.indention = true;
    }

    fn write_indicator(
        &mut self,
        indicator: &str,
        need_whitespace: bool,
        is_whitespace: bool,
        is_indention: bool,
    ) {
        if need_whitespace && !self.whitespace {
            self.put(' ');
        }
        for c in indicator.chars() {
            self.put(c);
        }
        self.whitespace = is_whitespace;
        self.indention = self.indention && is_indention;
    }
}

struct Analysis {
    multiline: bool,
    block_plain_allowed: bool,
    single_quoted_allowed: bool,
    block_allowed: bool,
}

fn is_printable(c: char) -> bool {
    let u = c as u32;
    u == 0x0a
        || (0x20..=0x7e).contains(&u)
        || u == 0x85
        || (0xa0..=0xd7ff).contains(&u)
        || ((0xe000..=0xfffd).contains(&u) && u != 0xfeff)
        || (0x10000..=0x10ffff).contains(&u)
}

fn analyze(value: &str) -> Analysis {
    let chars: Vec<char> = value.chars().collect();
    if chars.is_empty() {
        return Analysis {
            multiline: false,
            block_plain_allowed: true,
            single_quoted_allowed: true,
            block_allowed: false,
        };
    }
    let mut block_indicators = false;
    let mut line_breaks = false;
    let mut special_characters = false;
    let mut leading_space = false;
    let mut leading_break = false;
    let mut trailing_space = false;
    let mut trailing_break = false;
    let mut break_space = false;
    let mut space_break = false;
    let mut previous_space = false;
    let mut previous_break = false;
    if value.starts_with("---") || value.starts_with("...") {
        block_indicators = true;
    }
    let blank_or_end = |i: usize| i >= chars.len() || matches!(chars[i], ' ' | '\t' | '\n' | '\r');
    let mut preceded_by_whitespace = true;
    for (i, &c) in chars.iter().enumerate() {
        let first = i == 0;
        let followed_by_whitespace = blank_or_end(i + 1);
        if first {
            match c {
                '#' | ',' | '[' | ']' | '{' | '}' | '&' | '*' | '!' | '|' | '>' | '\'' | '"'
                | '%' | '@' | '`' => block_indicators = true,
                '?' | ':' => {
                    if followed_by_whitespace {
                        block_indicators = true;
                    }
                }
                '-' => {
                    if followed_by_whitespace {
                        block_indicators = true;
                    }
                }
                _ => {}
            }
        } else {
            match c {
                ':' => {
                    if followed_by_whitespace {
                        block_indicators = true;
                    }
                }
                '#' => {
                    if preceded_by_whitespace {
                        block_indicators = true;
                    }
                }
                _ => {}
            }
        }
        if !is_printable(c) {
            special_characters = true;
        }
        if c == '\n' || c == '\r' {
            line_breaks = true;
        }
        if c == ' ' {
            if first {
                leading_space = true;
            }
            if i + 1 == chars.len() {
                trailing_space = true;
            }
            if previous_break {
                break_space = true;
            }
            previous_space = true;
            previous_break = false;
        } else if c == '\n' || c == '\r' {
            if first {
                leading_break = true;
            }
            if i + 1 == chars.len() {
                trailing_break = true;
            }
            if previous_space {
                space_break = true;
            }
            previous_space = false;
            previous_break = true;
        } else {
            previous_space = false;
            previous_break = false;
        }
        preceded_by_whitespace = matches!(c, ' ' | '\t' | '\n' | '\r');
    }
    let mut a = Analysis {
        multiline: line_breaks,
        block_plain_allowed: true,
        single_quoted_allowed: true,
        block_allowed: true,
    };
    if leading_space || leading_break || trailing_space || trailing_break {
        a.block_plain_allowed = false;
    }
    if trailing_space {
        a.block_allowed = false;
    }
    if break_space {
        a.block_plain_allowed = false;
        a.single_quoted_allowed = false;
    }
    if space_break || special_characters {
        a.block_plain_allowed = false;
        a.single_quoted_allowed = false;
        a.block_allowed = false;
    }
    if line_breaks {
        a.block_plain_allowed = false;
    }
    if block_indicators {
        a.block_plain_allowed = false;
    }
    a
}

#[derive(Clone, Copy, PartialEq)]
enum Written {
    Plain,
    Single,
    Double,
    Literal,
}

fn select_style(scalar: &Scalar, simple_key: bool) -> Written {
    let a = analyze(&scalar.value);
    let mut style = match scalar.style {
        ScalarStyle::Plain => Written::Plain,
        ScalarStyle::SingleQuoted => Written::Single,
        ScalarStyle::Literal => Written::Literal,
    };
    if simple_key && a.multiline {
        style = Written::Double;
    }
    if style == Written::Plain {
        if !a.block_plain_allowed {
            style = Written::Single;
        }
        if scalar.value.is_empty() && simple_key {
            style = Written::Single;
        }
    }
    if style == Written::Single && !a.single_quoted_allowed {
        style = Written::Double;
    }
    if style == Written::Literal && (!a.block_allowed || simple_key) {
        style = Written::Double;
    }
    style
}

fn write_scalar(out: &mut Out, scalar: &Scalar, indent: isize, simple_key: bool) {
    if let Some(tag) = &scalar.tag {
        out.write_indicator(tag, true, false, false);
    }
    let style = select_style(scalar, simple_key);
    let value = &scalar.value;
    match style {
        Written::Plain => {
            if !out.whitespace && !value.is_empty() {
                out.put(' ');
            }
            for c in value.chars() {
                out.put(c);
            }
            out.whitespace = false;
            out.indention = false;
        }
        Written::Single => {
            out.write_indicator("'", true, false, false);
            for c in value.chars() {
                if c == '\n' {
                    out.put_break();
                    out.put_break();
                } else {
                    if c == '\'' {
                        out.put('\'');
                    }
                    out.put(c);
                }
            }
            out.write_indicator("'", false, false, false);
        }
        Written::Double => {
            out.write_indicator("\"", true, false, false);
            for c in value.chars() {
                match c {
                    '"' => {
                        out.put('\\');
                        out.put('"');
                    }
                    '\\' => {
                        out.put('\\');
                        out.put('\\');
                    }
                    '\n' => {
                        out.put('\\');
                        out.put('n');
                    }
                    '\t' => {
                        out.put('\\');
                        out.put('t');
                    }
                    '\r' => {
                        out.put('\\');
                        out.put('r');
                    }
                    '\0' => {
                        out.put('\\');
                        out.put('0');
                    }
                    c if !is_printable(c) => {
                        for d in format!("\\x{:02X}", c as u32).chars() {
                            out.put(d);
                        }
                    }
                    c => out.put(c),
                }
            }
            out.write_indicator("\"", false, false, false);
        }
        Written::Literal => {
            out.write_indicator("|", true, false, false);
            if !value.ends_with('\n') {
                out.write_indicator("-", false, false, false);
            } else if value.len() == 1 || value.ends_with("\n\n") {
                out.write_indicator("+", false, false, false);
            }
            out.put_break();
            out.indention = true;
            out.whitespace = true;
            let mut breaks = true;
            for c in value.chars() {
                if c == '\n' {
                    out.put_break();
                    out.indention = true;
                    breaks = true;
                } else {
                    if breaks {
                        out.write_indent(indent);
                    }
                    out.put(c);
                    out.indention = false;
                    breaks = false;
                }
            }
        }
    }
}

fn is_simple_key(events: &[Event], i: usize) -> bool {
    match &events[i] {
        Event::Scalar(s) => !s.value.contains('\n') && s.value.len() <= 128,
        Event::SequenceStart(_) => matches!(events[i + 1], Event::SequenceEnd),
        Event::MappingStart(_) => matches!(events[i + 1], Event::MappingEnd),
        _ => false,
    }
}

fn write_node(
    events: &[Event],
    i: &mut usize,
    out: &mut Out,
    indent: isize,
    mapping_context: bool,
    simple_key: bool,
) {
    match &events[*i] {
        Event::Scalar(scalar) => {
            *i += 1;
            let inner = if indent < 0 { 0 } else { indent + 2 };
            write_scalar(out, scalar, inner, simple_key);
        }
        Event::SequenceStart(sequence) => {
            *i += 1;
            if let Some(tag) = &sequence.tag {
                out.write_indicator(tag, true, false, false);
            }
            if matches!(events[*i], Event::SequenceEnd) {
                *i += 1;
                out.write_indicator("[", true, true, false);
                out.write_indicator("]", false, false, false);
                return;
            }
            let indentless = mapping_context && !out.indention;
            let inner = if indent < 0 {
                0
            } else if indentless {
                indent
            } else {
                indent + 2
            };
            while !matches!(events[*i], Event::SequenceEnd) {
                out.write_indent(inner);
                out.write_indicator("-", true, false, true);
                write_node(events, i, out, inner, false, false);
            }
            *i += 1;
        }
        Event::MappingStart(mapping) => {
            *i += 1;
            if let Some(tag) = &mapping.tag {
                out.write_indicator(tag, true, false, false);
            }
            if matches!(events[*i], Event::MappingEnd) {
                *i += 1;
                out.write_indicator("{", true, true, false);
                out.write_indicator("}", false, false, false);
                return;
            }
            let inner = if indent < 0 { 0 } else { indent + 2 };
            while !matches!(events[*i], Event::MappingEnd) {
                out.write_indent(inner);
                if is_simple_key(events, *i) {
                    write_node(events, i, out, inner, false, true);
                    out.write_indicator(":", false, false, false);
                } else {
                    out.write_indicator("?", true, false, true);
                    write_node(events, i, out, inner, false, false);
                    out.write_indent(inner);
                    out.write_indicator(":", true, false, true);
                }
                write_node(events, i, out, inner, true, false);
            }
            *i += 1;
        }
        other => panic!("no node starts with {other:?}"),
    }
}

/// The text of every complete document of the stream.
fn render(events: &[Event]) -> String {
    let mut out = Out {
        text: String::new(),
        column: 0,
        whitespace: true,
        indention: true,
    };
    let mut i = 0;
    let mut first = true;
    while i < events.len() {
        match &events[i] {
            Event::StreamStart | Event::StreamEnd => i += 1,
            Event::DocumentStart => {
                let mut depth = 0usize;
                let mut end = None;
                for (j, e) in events.iter().enumerate().skip(i + 1) {
                    match e {
                        Event::SequenceStart(_) | Event::MappingStart(_) => depth += 1,
                        Event::SequenceEnd | Event::MappingEnd => depth -= 1,
                        Event::DocumentEnd if depth == 0 => {
                            end = Some(j);
                            break;
                        }
                        _ => {}
                    }
                }
                let end = match end {
                    Some(end) => end,
                    None => break,
                };
                if !first {
                    out.write_indent(-1);
                    out.write_indicator("---", true, false, false);
                }
                first = false;
                i += 1;
                write_node(events, &mut i, &mut out, -1, false, false);
                assert_eq!(i, end, "one node in one document");
                out.write_indent(-1);
                i += 1;
                if out.column != 0 {
                    out.put_break();
                }
            }
            other => panic!("outside a document: {other:?}"),
        }
    }
    out.text
}

// --- values, built by hand ---

fn text(s: &str) -> Value {
    Value::String(s.to_owned())
}

fn double(x: f64) -> Value {
    let shortest = if x.is_finite() {
        ryu::Buffer::new().format_finite(x).to_owned()
    } else {
        String::new()
    };
    Value::Float(x.to_bits(), shortest)
}

fn list(items: Vec<Value>) -> Value {
    Value::Sequence(items)
}

fn dict(entries: Vec<(&str, Value)>) -> Value {
    Value::Mapping(entries.into_iter().map(|(k, v)| (text(k), v)).collect())
}

fn record(fields: Vec<(&str, Value)>) -> Value {
    Value::Struct(fields.into_iter().map(|(k, v)| (k.to_owned(), v)).collect())
}

fn present(v: Value) -> Value {
    Value::Present(Box::new(v))
}

fn unit(name: &str) -> Value {
    Value::UnitVariant(name.to_owned())
}

fn newtype(name: &str, v: Value) -> Value {
    Value::NewtypeVariant(name.to_owned(), Box::new(v))
}

fn tuple(name: &str, items: Vec<Value>) -> Value {
    Value::TupleVariant(name.to_owned(), items)
}

fn fields(name: &str, fields: Vec<(&str, Value)>) -> Value {
    Value::StructVariant(
        name.to_owned(),
        fields.into_iter().map(|(k, v)| (k.to_owned(), v)).collect(),
    )
}

/// The text of the stream that the encoder has written.
fn written(serializer: Serializer) -> String {
    render(&serializer.into_inner().unwrap())
}

/// The text of the documents that the encoder has closed so far.
fn so_far(serializer: &Serializer) -> String {
    render(serializer.emitter.events())
}

/// The text of one value under the default convention.
fn to_string(value: &Value) -> Result<String, Error> {
    let mut serializer = Serializer::new();
    value.serialize(&mut serializer)?;
    Ok(written(serializer))
}
// --- a reader of plain block documents, for the tests below ---

fn scalar_of(token: &str) -> Value {
    let token = token.trim();
    if let Some(rest) = token.strip_prefix('!') {
        let (tag, rest) = match rest.split_once(' ') {
            Some((tag, rest)) => (tag, rest),
            None => (rest, ""),
        };
        return Value::Tagged(tag.to_owned(), Box::new(scalar_of(rest)));
    }
    if token == "{}" {
        return Value::Mapping(Vec::new());
    }
    if token == "[]" {
        return Value::Sequence(Vec::new());
    }
    if token.len() >= 2 && token.starts_with('\'') && token.ends_with('\'') {
        return Value::String(token[1..token.len() - 1].replace("''", "'"));
    }
    if token.len() >= 2 && token.starts_with('"') && token.ends_with('"') {
        let mut s = String::new();
        let mut chars = token[1..token.len() - 1].chars();
        while let Some(c) = chars.next() {
            if c == '\\' {
                match chars.next() {
                    Some('n') => s.push('\n'),
                    Some('t') => s.push('\t'),
                    Some(other) => s.push(other),
                    None => {}
                }
            } else {
                s.push(c);
            }
        }
        return Value::String(s);
    }
    let unpositive = token.strip_prefix('+').unwrap_or(token);
    let decimal = unpositive.parse::<f64>().ok().map(f64::to_bits);
    untagged_scalar(token, decimal)
}

fn key_of(content: &str) -> Option<(&str, &str)> {
    if content.starts_with('"') || content.starts_with('\'') {
        let quote = &content[..1];
        let close = content[1..].find(quote)? + 1;
        let rest = &content[close + 1..];
        return match rest.strip_prefix(':') {
            Some(value) => Some((&content[..close + 1], value)),
            None => None,
        };
    }
    if let Some(key) = content.strip_suffix(':') {
        return Some((key, ""));
    }
    content.split_once(": ")
}

fn block(lines: &mut Vec<(usize, String)>, at: &mut usize, indent: usize) -> Value {
    let first = lines[*at].1.clone();
    if first == "-" || first.starts_with("- ") {
        let mut items = Vec::new();
        while *at < lines.len()
            && lines[*at].0 == indent
            && (lines[*at].1 == "-" || lines[*at].1.starts_with("- "))
        {
            let rest = lines[*at].1[1..].trim_start().to_owned();
            if rest.is_empty() {
                *at += 1;
                if *at < lines.len() && lines[*at].0 > indent {
                    let inner = lines[*at].0;
                    items.push(block(lines, at, inner));
                } else {
                    items.push(Value::Null);
                }
            } else {
                lines[*at] = (indent + 2, rest);
                items.push(block(lines, at, indent + 2));
            }
        }
        return Value::Sequence(items);
    }
    if key_of(&first).is_some() {
        let mut entries = Vec::new();
        while *at < lines.len() && lines[*at].0 == indent {
            let line = lines[*at].1.clone();
            let (key, rest) = match key_of(&line) {
                Some(pair) => pair,
                None => break,
            };
            *at += 1;
            let value = if !rest.trim().is_empty() {
                scalar_of(rest)
            } else if *at < lines.len() && lines[*at].0 > indent {
                let inner = lines[*at].0;
                block(lines, at, inner)
            } else if *at < lines.len()
                && lines[*at].0 == indent
                && lines[*at].1.starts_with("- ")
            {
                block(lines, at, indent)
            } else {
                Value::Null
            };
            entries.push((scalar_of(key), value));
        }
        return Value::Mapping(entries);
    }
    *at += 1;
    scalar_of(&first)
}

/// The document that the text holds.
fn load(yaml: &str) -> Value {
    let mut lines: Vec<(usize, String)> = yaml
        .lines()
        .filter(|line| !line.trim().is_empty())
        .map(|line| {
            let content = line.trim_start();
            (line.len() - content.len(), content.trim_end().to_owned())
        })
        .collect();
    if lines.is_empty() {
        return Value::Null;
    }
    let mut at = 0;
    let indent = lines[0].0;
    let value = block(&mut lines, &mut at, indent);
    assert_eq!(at, lines.len(), "the whole text is one document");
    value
}

/// The value under `key` in a map.
fn entry<'a>(map: &'a Value, key: &str) -> &'a Value {
    match map {
        Value::Mapping(entries) => entries
            .iter()
            .find(|(k, _)| *k == Value::String(key.to_owned()))
            .map(|(_, v)| v)
            .unwrap(),
        other => panic!("no map: {other:?}"),
    }
}

// --- shapes, built by hand ---

fn variants(list: Vec<(&str, Payload)>) -> Shape {
    Shape::Enum(list.into_iter().map(|(n, p)| (n.to_owned(), p)).collect())
}

fn one(shape: Shape) -> Payload {
    Payload::Newtype(Box::new(shape))
}

fn named(list: Vec<(&str, Shape)>) -> Vec<(String, Shape)> {
    list.into_iter().map(|(n, s)| (n.to_owned(), s)).collect()
}

fn optional(shape: Shape) -> Shape {
    Shape::Optional(Box::new(shape))
}

fn my_enum() -> Shape {
    variants(vec![
        ("Unit", Payload::Unit),
        ("Newtype", one(Shape::U64)),
        ("Tuple", Payload::Tuple(vec![Shape::U64, Shape::U64])),
        ("Struct", Payload::Struct(named(vec![("value", Shape::U64)]))),
    ])
}

/// The text of `value` with its enum as a singleton map.
fn singleton_text(value: &Value) -> String {
    let mut serializer = Serializer::new();
    singleton_map::serialize(value, &mut serializer).unwrap();
    written(serializer)
}

/// The text of `value` with every enum in it as a singleton map.
fn recursive_text(value: &Value) -> String {
    let mut serializer = Serializer::new();
    singleton_map_recursive::serialize(value, &mut serializer).unwrap();
    written(serializer)
}
fn inner_enum() -> Shape {
    variants(vec![("Variant1", Payload::Unit), ("Variant2", one(Shape::String))])
}

fn outer_enum() -> Shape {
    variants(vec![
        ("Variant1", one(inner_enum())),
        ("Variant2", Payload::Struct(named(vec![("inner", inner_enum())]))),
    ])
}

#[test]
fn test_nested_singleton_map() {
    let field = newtype("Variant1", unit("Variant1"));
    let test_struct = record(vec![(
        "field",
        rewrite(&field, Convention::SingletonMapRecursive),
    )]);
    let yaml = to_string(&test_struct).unwrap();
    assert_eq!(yaml, "field:\n  Variant1: Variant1\n");
    let deserialized =
        nested_singleton_map::deserialize(entry(&load(&yaml), "field"), &outer_enum()).unwrap();
    assert_eq!(field, deserialized);

    let field = fields("Variant2", vec![("inner", newtype("Variant2", text("value")))]);
    let test_struct = record(vec![(
        "field",
        rewrite(&field, Convention::SingletonMapRecursive),
    )]);
    let yaml = to_string(&test_struct).unwrap();
    assert_eq!(yaml, "field:\n  Variant2:\n    inner:\n      Variant2: value\n");
    let deserialized =
        nested_singleton_map::deserialize(entry(&load(&yaml), "field"), &outer_enum()).unwrap();
    assert_eq!(field, deserialized);
}

#[test]
fn test_singleton_map_optional() {
    let field = Some(unit("Unit"));
    let test_struct = record(vec![(
        "field",
        rewrite(&present(unit("Unit")), Convention::SingletonMap),
    )]);
    let yaml = to_string(&test_struct).unwrap();
    assert_eq!(yaml, "field: Unit\n");
    let deserialized =
        singleton_map_optional::deserialize(entry(&load(&yaml), "field"), &my_enum()).unwrap();
    assert_eq!(field, deserialized);

    let test_struct = record(vec![("field", Value::Null)]);
    let yaml = to_string(&test_struct).unwrap();
    assert_eq!(yaml, "field: null\n");
    let deserialized =
        singleton_map_optional::deserialize(entry(&load(&yaml), "field"), &my_enum()).unwrap();
    assert_eq!(None, deserialized);
}

#[test]
fn test_singleton_map_with() {
    let field = unit("Unit");
    let test_struct = record(vec![("field", rewrite(&field, Convention::SingletonMap))]);
    let yaml = to_string(&test_struct).unwrap();
    assert_eq!(yaml, "field: Unit\n");
    let deserialized =
        singleton_map_with::deserialize(entry(&load(&yaml), "field"), &my_enum()).unwrap();
    assert_eq!(field, deserialized);
}

#[test]
fn test_nested_singleton_map_serialization() {
    let value = newtype("Variant1", unit("Variant1"));
    let mut serializer = Serializer::new();
    nested_singleton_map::serialize(&value, &mut serializer).unwrap();
    assert_eq!(written(serializer), "Variant1: Variant1\n");

    let value = fields("Variant2", vec![("inner", newtype("Variant2", text("value")))]);
    let mut serializer = Serializer::new();
    nested_singleton_map::serialize(&value, &mut serializer).unwrap();
    assert_eq!(written(serializer), "Variant2:\n  inner:\n    Variant2: value\n");
}

#[test]
fn test_nested_singleton_map_deserialization() {
    let yaml = "Variant1: Variant1\n";
    let deserialized = nested_singleton_map::deserialize(&load(yaml), &outer_enum()).unwrap();
    assert_eq!(deserialized, newtype("Variant1", unit("Variant1")));

    let yaml = "Variant2:\n  inner:\n    Variant2: value\n";
    let deserialized = nested_singleton_map::deserialize(&load(yaml), &outer_enum()).unwrap();
    assert_eq!(
        deserialized,
        fields("Variant2", vec![("inner", newtype("Variant2", text("value")))])
    );
}

fn nested_enum() -> Shape {
    variants(vec![("Variant", one(my_enum()))])
}

#[test]
fn test_singleton_map_recursive() {
    let field = newtype("Variant", unit("Unit"));
    let test_struct = record(vec![(
        "field",
        rewrite(&field, Convention::SingletonMapRecursive),
    )]);
    let yaml = to_string(&test_struct).unwrap();
    assert_eq!(yaml, "field:\n  Variant: Unit\n");
    let deserialized =
        singleton_map_recursive::deserialize(entry(&load(&yaml), "field"), &nested_enum())
            .unwrap();
    assert_eq!(field, deserialized);
}

#[test]
fn test_singleton_map_recursive_top_level() {
    let value = unit("Unit");
    let yaml = recursive_text(&value);
    assert_eq!(yaml, "Unit\n");
    let deserialized = singleton_map_recursive::deserialize(&load(&yaml), &my_enum()).unwrap();
    assert_eq!(value, deserialized);
}

#[test]
fn test_singleton_map_serialization() {
    assert_eq!(singleton_text(&unit("Unit")), "Unit\n");
    assert_eq!(singleton_text(&newtype("Newtype", Value::U64(42))), "Newtype: 42\n");
    assert_eq!(
        singleton_text(&tuple("Tuple", vec![Value::U64(1), Value::U64(2)])),
        "Tuple:\n- 1\n- 2\n"
    );
    assert_eq!(
        singleton_text(&fields("Struct", vec![("value", Value::U64(42))])),
        "Struct:\n  value: 42\n"
    );
}

#[test]
fn test_singleton_map_deserialization() {
    let deserialized = singleton_map::deserialize(&load("Unit\n"), &my_enum()).unwrap();
    assert_eq!(deserialized, unit("Unit"));

    let deserialized = singleton_map::deserialize(&load("Newtype: 42\n"), &my_enum()).unwrap();
    assert_eq!(deserialized, newtype("Newtype", Value::U64(42)));

    let deserialized =
        singleton_map::deserialize(&load("Tuple:\n- 1\n- 2\n"), &my_enum()).unwrap();
    assert_eq!(deserialized, tuple("Tuple", vec![Value::U64(1), Value::U64(2)]));

    let deserialized =
        singleton_map::deserialize(&load("Struct:\n  value: 42\n"), &my_enum()).unwrap();
    assert_eq!(deserialized, fields("Struct", vec![("value", Value::U64(42))]));
}

#[test]
fn test_singleton_map_optional_serialization() {
    let value = Some(unit("Unit"));
    let mut serializer = Serializer::new();
    singleton_map_optional::serialize(&value, &mut serializer).unwrap();
    assert_eq!(written(serializer), "Unit\n");

    let value: Option<Value> = None;
    let mut serializer = Serializer::new();
    singleton_map_optional::serialize(&value, &mut serializer).unwrap();
    assert_eq!(written(serializer), "null\n");
}

#[test]
fn test_singleton_map_optional_deserialization() {
    let deserialized = singleton_map_optional::deserialize(&load("Unit\n"), &my_enum()).unwrap();
    assert_eq!(deserialized, Some(unit("Unit")));

    let deserialized = singleton_map_optional::deserialize(&load("null\n"), &my_enum()).unwrap();
    assert_eq!(deserialized, None);
}

#[test]
fn test_singleton_map_with_serialization() {
    let value = unit("Unit");
    let mut serializer = Serializer::new();
    singleton_map_with::serialize(&value, &mut serializer).unwrap();
    assert_eq!(written(serializer), "Unit\n");
}

#[test]
fn test_singleton_map_with_deserialization() {
    let deserialized = singleton_map_with::deserialize(&load("Unit\n"), &my_enum()).unwrap();
    assert_eq!(deserialized, unit("Unit"));
}

#[test]
fn test_singleton_map_recursive_serialization() {
    let value = newtype("Variant", unit("Unit"));
    assert_eq!(recursive_text(&value), "Variant: Unit\n");
}

#[test]
fn test_singleton_map_recursive_deserialization() {
    let deserialized =
        singleton_map_recursive::deserialize(&load("Variant: Unit\n"), &nested_enum()).unwrap();
    assert_eq!(deserialized, newtype("Variant", unit("Unit")));
}

#[test]
fn test_singleton_map_recursive_top_level_serialization() {
    assert_eq!(recursive_text(&unit("Unit")), "Unit\n");
}

#[test]
fn test_singleton_map_recursive_top_level_deserialization() {
    let deserialized = singleton_map_recursive::deserialize(&load("Unit\n"), &my_enum()).unwrap();
    assert_eq!(deserialized, unit("Unit"));
}

#[test]
fn test_singleton_map_deserialization_error() {
    let result = singleton_map::deserialize(&load("InvalidYAML"), &my_enum());
    assert!(result.is_err());
}

#[test]
fn test_singleton_map_missing_field_error() {
    let result = singleton_map::deserialize(&load("MissingField: 42"), &my_enum());
    assert!(result.is_err());
}

#[test]
fn test_empty_enum() {
    let shape = variants(vec![("Variant", Payload::Unit)]);
    let value = unit("Variant");
    let yaml = singleton_text(&value);
    assert_eq!(yaml, "Variant\n");
    let deserialized = singleton_map::deserialize(&load(&yaml), &shape).unwrap();
    assert_eq!(value, deserialized);
}

#[test]
fn test_generic_enum() {
    let shape = variants(vec![("Variant", one(Shape::I64))]);
    let value = newtype("Variant", Value::I64(42));
    let yaml = singleton_text(&value);
    assert_eq!(yaml, "Variant: 42\n");
    let deserialized = singleton_map::deserialize(&load(&yaml), &shape).unwrap();
    assert_eq!(value, deserialized);
}

#[test]
fn test_singleton_map_unknown_variant_error() {
    let result = singleton_map::deserialize(&load("NotARealVariant: 123\n"), &my_enum());
    assert!(result.is_err(), "Deserializing unknown variant should fail");
}

#[test]
fn test_singleton_map_multiple_keys_error() {
    let result =
        singleton_map::deserialize(&load("Newtype: 42\nAnotherVariant: 99\n"), &my_enum());
    assert!(result.is_err(), "Deserializing multiple keys should fail");
    assert_eq!(result, Err(Error::ShapeMismatch));
}

#[test]
fn test_singleton_map_zero_key_map_error() {
    let result = singleton_map::deserialize(&load("{}\n"), &my_enum());
    assert!(result.is_err(), "Deserializing an empty map should fail");
    assert_eq!(result, Err(Error::ShapeMismatch));
}

#[test]
fn test_singleton_map_non_map_for_variant_error() {
    let result = singleton_map::deserialize(&load("- 1\n- 2\n"), &my_enum());
    assert!(
        result.is_err(),
        "Deserializing a non-map structure for an enum variant should fail"
    );
}

#[test]
fn test_singleton_map_optional_multiple_keys_error() {
    let result = singleton_map_optional::deserialize(&load("Unit: 0\nNewtype: 1\n"), &my_enum());
    assert!(
        result.is_err(),
        "Deserializing multiple keys into Option<MyEnum> should fail"
    );
}

#[test]
fn test_singleton_map_with_unknown_variant_error() {
    let result = singleton_map_with::deserialize(&load("UnknownStuff: 10\n"), &my_enum());
    assert!(result.is_err(), "Unknown variant must fail for singleton_map_with");
}

#[test]
fn test_nested_singleton_map_multiple_keys_error() {
    let inner = variants(vec![("A", Payload::Unit), ("B", one(Shape::String))]);
    let other = variants(vec![("A", Payload::Unit), ("B", one(Shape::String))]);
    let outer = variants(vec![
        ("Variant1", one(inner)),
        ("Variant2", Payload::Struct(named(vec![("x", other)]))),
    ]);
    let document = dict(vec![
        ("Variant1", text("A")),
        ("Variant2", dict(vec![("x", dict(vec![("B", text("Yikes!"))]))])),
    ]);
    let result = nested_singleton_map::deserialize(&document, &outer);
    assert!(
        result.is_err(),
        "Deserializing multiple keys in nested_singleton_map should fail"
    );
}

#[test]
fn test_singleton_map_recursive_extra_map_key_error() {
    let nested = variants(vec![("A", one(my_enum()))]);
    let yaml = "A:\n  Newtype: 42\n  ExtraKey: 55\n";
    let result = singleton_map_recursive::deserialize(&load(yaml), &nested);
    assert!(result.is_err(), "Extra key inside nested map must cause an error");
}

#[test]
fn test_custom_deserializer_compatibility() {
    let document = load("Newtype: 64\n");
    let result = singleton_map::deserialize(&document, &my_enum()).unwrap();
    assert_eq!(result, newtype("Newtype", Value::U64(64)));
}

#[test]
fn test_empty_map_in_option_variant() {
    let result = singleton_map_optional::deserialize(&load("{}\n"), &my_enum());
    assert!(
        result.is_err(),
        "Deserializing an empty map into Option<MyEnum> must fail"
    );
}

#[test]
fn test_nested_singleton_map_conflicting_structure() {
    let inner = variants(vec![("A", one(Shape::I64)), ("B", Payload::Unit)]);
    let outer = variants(vec![(
        "OuterVariant",
        Payload::Struct(named(vec![("x", inner)])),
    )]);
    let yaml = "OuterVariant:\n  x:\n    B: 123\n";
    let result = nested_singleton_map::deserialize(&load(yaml), &outer);
    assert!(result.is_err(), "Providing sub-fields to a unit variant should fail");
}

#[test]
fn test_singleton_map_null_value_error() {
    let result = singleton_map::deserialize(&load("Newtype: null\n"), &my_enum());
    assert!(result.is_err(), "Null value should fail for non-Option enum");
}

#[test]
fn test_singleton_map_wrong_variant_data_type() {
    let result = singleton_map::deserialize(&load("Newtype: \"not a number\"\n"), &my_enum());
    assert!(result.is_err(), "Wrong data type should fail deserialization");
}

fn recursive_enum(depth: usize) -> Shape {
    if depth == 0 {
        variants(vec![("Leaf", one(Shape::I64))])
    } else {
        variants(vec![
            ("Leaf", one(Shape::I64)),
            ("Node", one(recursive_enum(depth - 1))),
        ])
    }
}

#[test]
fn test_singleton_map_recursive_cyclic_reference() {
    let value = newtype("Node", newtype("Leaf", Value::I64(42)));
    let yaml = recursive_text(&value);
    assert_eq!(yaml, "Node:\n  Leaf: 42\n");
    let deserialized =
        singleton_map_recursive::deserialize(&load(&yaml), &recursive_enum(1)).unwrap();
    assert_eq!(value, deserialized);
}

#[test]
fn test_singleton_map_optional_empty_string() {
    let result = singleton_map_optional::deserialize(&load("\"\"\n"), &my_enum());
    assert!(result.is_err(), "Empty string should fail for Option<MyEnum>");
}

#[test]
fn test_nested_singleton_map_missing_inner_field() {
    let inner_struct = Shape::Struct(named(vec![("required", Shape::String)]));
    let complex = variants(vec![(
        "Variant",
        Payload::Struct(named(vec![("data", inner_struct)])),
    )]);
    let yaml = "Variant:\n  data: {}\n";
    let result = nested_singleton_map::deserialize(&load(yaml), &complex);
    assert!(result.is_err(), "Missing required inner field should fail");
}

#[test]
fn test_singleton_map_with_large_numbers() {
    let shape = variants(vec![("Big", one(Shape::I64)), ("Small", one(Shape::I64))]);

    let value = newtype("Big", Value::I64(i64::MAX));
    let yaml = singleton_text(&value);
    let deserialized = singleton_map::deserialize(&load(&yaml), &shape).unwrap();
    assert_eq!(deserialized, newtype("Big", Value::I64(i64::MAX)));

    let value = newtype("Small", Value::I64(i64::MIN));
    let yaml = singleton_text(&value);
    let deserialized = singleton_map::deserialize(&load(&yaml), &shape).unwrap();
    assert_eq!(deserialized, newtype("Small", Value::I64(i64::MIN)));

    let yaml = format!("Big: {}\n", u64::MAX);
    let result = singleton_map::deserialize(&load(&yaml), &shape);
    assert!(result.is_err(), "Number overflow should fail");
}

fn deep_enum(depth: usize) -> Shape {
    if depth == 0 {
        variants(vec![("Next", one(optional(Shape::Unit))), ("End", Payload::Unit)])
    } else {
        variants(vec![
            ("Next", one(optional(deep_enum(depth - 1)))),
            ("End", Payload::Unit),
        ])
    }
}

#[test]
fn test_singleton_map_recursive_deep_nesting() {
    let mut value = unit("End");
    for _ in 0..100 {
        value = newtype("Next", present(value));
    }
    let yaml = recursive_text(&value);
    let deserialized =
        singleton_map_recursive::deserialize(&load(&yaml), &deep_enum(100)).unwrap();
    assert_eq!(value, deserialized);
}

#[test]
fn test_singleton_map_optional_complex_none() {
    let shape = variants(vec![(
        "Variant",
        Payload::Struct(named(vec![("field", optional(my_enum()))])),
    )]);
    let value = fields("Variant", vec![("field", Value::Null)]);
    let yaml = singleton_text(&value);
    assert_eq!(yaml, "Variant:\n  field: null\n");
    let deserialized = singleton_map::deserialize(&load(&yaml), &shape).unwrap();
    assert_eq!(value, deserialized);
}

#[test]
fn test_unit_variant_with_data() {
    let result = singleton_map::deserialize(&load("Unit: 42\n"), &my_enum());
    assert!(result.is_err(), "Data for unit variant should fail");
}

fn mixed_enum(depth: usize) -> Shape {
    let next = if depth == 0 { Shape::Unit } else { mixed_enum(depth - 1) };
    let again = if depth == 0 { Shape::Unit } else { mixed_enum(depth - 1) };
    variants(vec![
        ("Unit", Payload::Unit),
        ("Newtype", one(next)),
        ("Struct", Payload::Struct(named(vec![("next", optional(again))]))),
    ])
}

#[test]
fn test_singleton_map_recursive_mixed_variants() {
    let value = newtype("Newtype", fields("Struct", vec![("next", present(unit("Unit")))]));
    let yaml = recursive_text(&value);
    assert_eq!(yaml, "Newtype:\n  Struct:\n    next: Unit\n");
    let deserialized = singleton_map_recursive::deserialize(&load(&yaml), &mixed_enum(2)).unwrap();
    assert_eq!(value, deserialized);
}

fn point(x: f64, y: f64) -> Value {
    record(vec![("x", double(x)), ("y", double(y))])
}

fn point_shape() -> Shape {
    Shape::Struct(named(vec![("x", Shape::Float), ("y", Shape::Float)]))
}

#[test]
fn test_serialization() {
    let yaml = to_string(&point(1.0, 2.0)).unwrap();
    assert_eq!(yaml, "x: 1.0\n'y': 2.0\n");
}

#[test]
fn test_value_conversion() {
    let value = to_value(&point(1.0, 2.0), Convention::Tagged);
    let deserialized = deserialize(&value, &point_shape(), Convention::Tagged)
        .expect("Failed to convert from Value");
    assert_eq!(point(1.0, 2.0), deserialized);
}

#[test]
fn test_nested_serialization() {
    let shape = Shape::Struct(named(vec![
        ("outer", point_shape()),
        ("inner", optional(point_shape())),
    ]));
    let nested = record(vec![
        ("outer", point(1.0, 2.0)),
        ("inner", present(point(3.0, 4.0))),
    ]);
    let yaml = to_string(&nested).unwrap();
    let deserialized = deserialize(&load(&yaml), &shape, Convention::Tagged).unwrap();
    assert_eq!(nested, deserialized);
}
fn round_trip(value: &Value, shape: &Shape, convention: Convention) {
    let document = to_value(value, convention);
    let back = deserialize(&document, shape, convention).unwrap();
    assert_eq!(&back, value, "under {convention:?}");
}

#[test]
fn test_round_trip_of_every_shape_under_every_convention() {
    let nested = variants(vec![
        ("Unit", Payload::Unit),
        ("Newtype", one(my_enum())),
        ("Tuple", Payload::Tuple(vec![my_enum(), Shape::String])),
        (
            "Struct",
            Payload::Struct(named(vec![
                ("list", Shape::Sequence(Box::new(my_enum()))),
                ("maybe", optional(my_enum())),
                (
                    "table",
                    Shape::Mapping(Box::new(Shape::String), Box::new(my_enum())),
                ),
            ])),
        ),
    ]);
    let values = vec![
        unit("Unit"),
        newtype("Newtype", tuple("Tuple", vec![Value::U64(1), Value::U64(2)])),
        tuple("Tuple", vec![newtype("Newtype", Value::U64(7)), text("x")]),
        fields(
            "Struct",
            vec![
                (
                    "list",
                    list(vec![unit("Unit"), fields("Struct", vec![("value", Value::U64(3))])]),
                ),
                ("maybe", present(newtype("Newtype", Value::U64(9)))),
                (
                    "table",
                    Value::Mapping(vec![
                        (text("a"), unit("Unit")),
                        (text("b"), tuple("Tuple", vec![Value::U64(0), Value::U64(0)])),
                    ]),
                ),
            ],
        ),
        fields(
            "Struct",
            vec![
                ("list", list(vec![])),
                ("maybe", Value::Null),
                ("table", Value::Mapping(vec![])),
            ],
        ),
    ];
    for value in &values {
        round_trip(value, &nested, Convention::Tagged);
        round_trip(value, &nested, Convention::SingletonMapRecursive);
    }
    for value in [unit("Unit"), newtype("Newtype", Value::U64(5))] {
        round_trip(&value, &my_enum(), Convention::SingletonMap);
        round_trip(&present(value), &optional(my_enum()), Convention::SingletonMap);
    }
    round_trip(&Value::Null, &optional(my_enum()), Convention::SingletonMap);
}

#[test]
fn test_documents_by_convention() {
    let value = newtype("B", Value::I64(42));
    assert_eq!(
        to_value(&value, Convention::Tagged),
        Value::Tagged("B".to_owned(), Box::new(Value::I64(42)))
    );
    assert_eq!(
        to_value(&value, Convention::SingletonMap),
        dict(vec![("B", Value::I64(42))])
    );
    let nested = list(vec![newtype("B", Value::I64(1))]);
    assert_eq!(
        to_value(&nested, Convention::SingletonMap),
        list(vec![Value::Tagged("B".to_owned(), Box::new(Value::I64(1)))])
    );
    assert_eq!(
        to_value(&nested, Convention::SingletonMapRecursive),
        list(vec![dict(vec![("B", Value::I64(1))])])
    );
}

#[test]
fn test_recursive_and_plain_singleton_maps_differ_below_the_top() {
    let value = record(vec![
        ("a", newtype("Int", Value::I64(2))),
        ("bs", list(vec![newtype("Int", Value::I64(3))])),
    ]);
    assert_eq!(to_string(&value).unwrap(), "a: !Int 2\nbs:\n- !Int 3\n");
    assert_eq!(singleton_text(&value), "a: !Int 2\nbs:\n- !Int 3\n");
    assert_eq!(recursive_text(&value), "a:\n  Int: 2\nbs:\n- Int: 3\n");

    let outer = newtype("Outer", newtype("Inner", Value::I64(1)));
    let mut serializer = Serializer::new();
    singleton_map::serialize(&outer, &mut serializer).unwrap();
    assert_eq!(written(serializer), "Outer: !Inner 1\n");
    assert_eq!(recursive_text(&outer), "Outer:\n  Inner: 1\n");
}

#[test]
fn test_proxy_calls_one_by_one() {
    let mut serializer = Serializer::new();
    SingletonMap { delegate: &mut serializer }
        .serialize_newtype_variant("E", 1, "B", &Value::I64(42))
        .unwrap();
    assert_eq!(written(serializer), "B: 42\n");

    let mut serializer = Serializer::new();
    let mut open = SingletonMap { delegate: &mut serializer }
        .serialize_tuple_variant("E", 2, "T", 2)
        .unwrap();
    open.serialize_field(&Value::I64(1)).unwrap();
    open.serialize_field(&newtype("N", Value::I64(2))).unwrap();
    assert_eq!(open.sequence.len(), 2);
    open.end().unwrap();
    assert_eq!(written(serializer), "T:\n- 1\n- !N 2\n");

    let mut serializer = Serializer::new();
    let mut open = SingletonMap { delegate: &mut serializer }
        .serialize_struct_variant("E", 3, "S", 1)
        .unwrap();
    open.serialize_field("x", &Value::Bool(true)).unwrap();
    open.end().unwrap();
    assert_eq!(written(serializer), "S:\n  x: true\n");

    let mut serializer = Serializer::new();
    SingletonMap { delegate: &mut serializer }
        .serialize_unit_variant("E", 0, "U")
        .unwrap();
    assert_eq!(written(serializer), "U\n");

    let mut serializer = Serializer::new();
    SingletonMap { delegate: &mut serializer }
        .serialize_some(&newtype("B", Value::I64(1)))
        .unwrap();
    assert_eq!(written(serializer), "B: 1\n");

    let mut serializer = Serializer::new();
    SingletonMapRecursive { delegate: &mut serializer }
        .serialize_newtype_variant("E", 1, "B", &newtype("C", Value::I64(42)))
        .unwrap();
    assert_eq!(written(serializer), "B:\n  C: 42\n");
}

#[test]
fn test_decoding_under_tags() {
    let document = Value::Tagged("Newtype".to_owned(), Box::new(Value::U64(1)));
    assert_eq!(
        deserialize(&document, &my_enum(), Convention::Tagged),
        Ok(newtype("Newtype", Value::U64(1)))
    );
    assert_eq!(
        deserialize(&document, &my_enum(), Convention::SingletonMap),
        Err(Error::ShapeMismatch)
    );
    assert_eq!(
        deserialize(&dict(vec![("Newtype", Value::U64(1))]), &my_enum(), Convention::Tagged),
        Err(Error::ShapeMismatch)
    );
}

#[test]
fn test_integers_are_read_as_the_reader_expects() {
    assert_eq!(
        deserialize(&Value::U64(5), &Shape::I64, Convention::Tagged),
        Ok(Value::I64(5))
    );
    assert_eq!(
        deserialize(&Value::I64(5), &Shape::U64, Convention::Tagged),
        Ok(Value::U64(5))
    );
    assert_eq!(
        deserialize(&Value::I64(-5), &Shape::U64, Convention::Tagged),
        Err(Error::ShapeMismatch)
    );
    assert_eq!(
        deserialize(&Value::U64(u64::MAX), &Shape::I64, Convention::Tagged),
        Err(Error::ShapeMismatch)
    );
}

#[test]
fn test_plain_scalars_as_a_reader_takes_them() {
    assert_eq!(untagged_scalar("", None), Value::Null);
    assert_eq!(untagged_scalar("~", None), Value::Null);
    assert_eq!(untagged_scalar("NULL", None), Value::Null);
    assert_eq!(untagged_scalar("True", None), Value::Bool(true));
    assert_eq!(untagged_scalar("FALSE", None), Value::Bool(false));
    assert_eq!(untagged_scalar("42", None), Value::U64(42));
    assert_eq!(untagged_scalar("-42", None), Value::I64(-42));
    assert_eq!(untagged_scalar("0x2A", None), Value::U64(42));
    assert_eq!(
        untagged_scalar("18446744073709551616", None),
        Value::U128(18446744073709551616)
    );
    assert_eq!(
        untagged_scalar("-9223372036854775809", None),
        Value::I128(-9223372036854775809)
    );
    assert_eq!(
        untagged_scalar("1.5", Some(1.5f64.to_bits())),
        Value::Float(1.5f64.to_bits(), "1.5".to_owned())
    );
    assert_eq!(
        untagged_scalar(".inf", None),
        Value::Float(f64::INFINITY.to_bits(), ".inf".to_owned())
    );
    assert_eq!(untagged_scalar("007", Some(7.0f64.to_bits())), text("007"));
    assert_eq!(untagged_scalar("hello", None), text("hello"));
    assert_eq!(untagged_scalar("yes", None), text("yes"));
}

#[test]
fn test_plain_strings_read_back_as_strings() {
    for word in ["hello", "yesterday", "a b", "x:y", "trueish", "inf", "e5"] {
        assert_eq!(serde_yml::scalar::classify(word), ScalarStyle::Plain);
        assert_eq!(untagged_scalar(word, None), text(word));
    }
    for word in ["yes", "No", "42", "-1", ".5", "+x", "", "null", "~", "nan", "Nil"] {
        assert_eq!(serde_yml::scalar::classify(word), ScalarStyle::SingleQuoted);
    }
}

#[test]
fn test_tags_are_told_by_their_pieces() {
    let pieces = |list: &[&str]| list.iter().map(|s| s.to_string()).collect::<Vec<String>>();
    assert_eq!(check_for_tag(&pieces(&["!", "Thing"])), MaybeTag::Tag("Thing".to_owned()));
    assert_eq!(check_for_tag(&pieces(&["", "!", "", "Thing", ""])), MaybeTag::Tag("Thing".to_owned()));
    assert_eq!(check_for_tag(&pieces(&["!Thing"])), MaybeTag::NotTag("!Thing".to_owned()));
    assert_eq!(check_for_tag(&pieces(&["!"])), MaybeTag::NotTag("!".to_owned()));
    assert_eq!(check_for_tag(&pieces(&[])), MaybeTag::NotTag(String::new()));
    assert_eq!(check_for_tag(&pieces(&["a", "b"])), MaybeTag::NotTag("ab".to_owned()));
    assert_eq!(check_for_tag(&pieces(&["!", "a", "b"])), MaybeTag::NotTag("ab".to_owned()));
}

#[test]
fn test_stream_of_one_value() {
    let value = record(vec![("a", list(vec![Value::Bool(true)]))]);
    let events = to_events(&value).unwrap();
    assert_eq!(events.first(), Some(&Event::StreamStart));
    assert_eq!(events.last(), Some(&Event::StreamEnd));
    assert_eq!(
        events.iter().filter(|e| **e == Event::DocumentStart).count(),
        1
    );
    assert_eq!(events.iter().filter(|e| **e == Event::DocumentEnd).count(), 1);
    assert_eq!(render(&events), "a:\n- true\n");
    assert_eq!(to_events(&Value::Bytes(vec![1])), Err(Error::UnsupportedConstruct));
}

#[test]
fn test_nesting_and_room() {
    let value = record(vec![("a", list(vec![dict(vec![("b", Value::Null)])]))]);
    assert_eq!(nesting_of(&value), 4);
    assert_eq!(nesting_of(&Value::Null), 1);
    let mut serializer = Serializer::new();
    assert!(serializer.can_take(&value));
    serializer.depth = usize::MAX - 7;
    assert!(!serializer.can_take(&value));
    serializer.depth = usize::MAX - 8;
    assert!(serializer.can_take(&value));
}

#[test]
fn test_characters_and_wide_integers_as_values() {
    assert_eq!(to_string(&Value::Char('a')).unwrap(), "'a'\n");
    assert_eq!(
        to_string(&Value::U128(u128::MAX)).unwrap(),
        "340282366920938463463374607431768211455\n"
    );
    assert_eq!(
        to_string(&Value::I128(i128::MIN)).unwrap(),
        "-170141183460469231731687303715884105728\n"
    );
    assert_eq!(
        to_string(&list(vec![Value::Bytes(vec![0])])),
        Err(Error::UnsupportedConstruct)
    );
}

#[test]
fn test_numbers_as_values_and_scalars() {
    let n = Number::from_i64(-7);
    assert_eq!(n.deserialize_any(""), Value::I64(-7));
    assert_eq!(Number::from_u64(7).deserialize_any(""), Value::U64(7));
    let f = Number::from_bits(2.5f64.to_bits());
    assert_eq!(f.deserialize_any("2.5"), Value::Float(2.5f64.to_bits(), "2.5".to_owned()));
    let mut serializer = Serializer::new();
    n.serialize(&mut serializer, "").unwrap();
    f.serialize(&mut serializer, "2.5").unwrap();
    Number::from_bits(f64::NAN.to_bits()).serialize(&mut serializer, "").unwrap();
    assert_eq!(written(serializer), "-7\n--- 2.5\n--- .nan\n");
}

#[test]
fn test_ser_de() {
    for number in [Number::from_i64(42), Number::from_i64(-42), Number::from_bits(std::f64::consts::PI.to_bits())] {
        let shortest = match number.as_bits() {
            Some(bits) => ryu::Buffer::new().format_finite(f64::from_bits(bits)).to_owned(),
            None => String::new(),
        };
        let mut serializer = Serializer::new();
        number.serialize(&mut serializer, &shortest).unwrap();
        let serialized = written(serializer);
        let decimal = serialized.trim_end().parse::<f64>().ok().map(f64::to_bits);
        let deserialized = Number::from_str(serialized.trim_end(), decimal).unwrap();
        assert_eq!(number, deserialized);
    }
}
