//! The inspector's decisions: how a selected file is presented (by its
//! extension) and the text of an audio file's duration; and the "Add
//! Attribute" dialog, where the user names a metadata attribute and picks
//! its type, and the entity gains `metadata_<name>` with that type's zero
//! value or the dialog says why not. Drawing, image previews and editing
//! attribute values (floating point) are the window's.
use vstd::prelude::*;
use crate::ecs::attribute::{AttributeType, AttributeValue, AttributeValueView, F32_ZERO};
use crate::ecs::entity::{defined, deletion_refusal, has_named, Entity, EntityView};
use crate::ecs::scene::value_update;
use crate::paths::{file_name, file_name_of};
use crate::project::{extension, extension_of, lowercase_text, unicode_lowercase};
use crate::table::{lookup, table_insert, table_remove};
use crate::text::{decimal, decimal_text, joined, owned, text_eq, trim_text, trimmed};

verus! {

/// How the inspector presents a file.
#[derive(Clone, Copy, Debug, PartialEq, Eq, Structural)]
pub enum FileKind {
    /// Previewed, with its size.
    Image,
    /// Playable, with its duration and size.
    Audio,
    /// Editable in the code editor.
    Script,
    Font,
    Unsupported,
}

/// The lower-cased extension of the path's file name (empty when it has
/// none).
pub open spec fn lowered_extension(path: Seq<char>) -> Seq<char> {
    match file_name(path) {
        Some(n) => match extension_of(n) {
            Some(e) => unicode_lowercase(e),
            None => Seq::empty(),
        },
        None => Seq::empty(),
    }
}

/// The kind of a file by its lower-cased extension: png, jpg, jpeg, gif
/// are images; mp3, wav, ogg audio; lua, rs scripts; ttf, otf fonts.
pub open spec fn file_kind_of(path: Seq<char>) -> FileKind {
    let e = lowered_extension(path);
    if e == "png"@ || e == "jpg"@ || e == "jpeg"@ || e == "gif"@ {
        FileKind::Image
    } else if e == "mp3"@ || e == "wav"@ || e == "ogg"@ {
        FileKind::Audio
    } else if e == "lua"@ || e == "rs"@ {
        FileKind::Script
    } else if e == "ttf"@ || e == "otf"@ {
        FileKind::Font
    } else {
        FileKind::Unsupported
    }
}

/// How the inspector presents the file at `path` (see `file_kind_of`).
pub fn file_kind(path: &str) -> (r: FileKind)
    ensures
        r == file_kind_of(path@),
{
    let lowered = match file_name_of(path) {
        Some(n) => match extension(n.as_str()) {
            Some(e) => lowercase_text(e.as_str()),
            None => String::new(),
        },
        None => String::new(),
    };
    let e = lowered.as_str();
    if text_eq(e, "png") || text_eq(e, "jpg") || text_eq(e, "jpeg") || text_eq(e, "gif") {
        FileKind::Image
    } else if text_eq(e, "mp3") || text_eq(e, "wav") || text_eq(e, "ogg") {
        FileKind::Audio
    } else if text_eq(e, "lua") || text_eq(e, "rs") {
        FileKind::Script
    } else if text_eq(e, "ttf") || text_eq(e, "otf") {
        FileKind::Font
    } else {
        FileKind::Unsupported
    }
}

/// The text of a duration of `t` whole seconds: days, hours, minutes and
/// seconds, starting at the largest unit that is not zero.
pub open spec fn duration_label(t: nat) -> Seq<char> {
    let s = t % 60;
    let m = (t / 60) % 60;
    let h = (t / 3600) % 24;
    let d = t / 86400;
    if d > 0 {
        "Duration: "@ + decimal(d) + "d "@ + decimal(h) + "h "@ + decimal(m) + "m "@ + decimal(s) + "s"@
    } else if h > 0 {
        "Duration: "@ + decimal(h) + "h "@ + decimal(m) + "m "@ + decimal(s) + "s"@
    } else if m > 0 {
        "Duration: "@ + decimal(m) + "m "@ + decimal(s) + "s"@
    } else {
        "Duration: "@ + decimal(s) + "s"@
    }
}

fn push_unit(out: &mut String, n: u64, unit: &str)
    ensures
        final(out)@ == old(out)@ + decimal(n as nat) + unit@,
{
    let t = decimal_text(n);
    out.append(t.as_str());
    out.append(unit);
}

/// The duration line of an audio file `total_seconds` long (see
/// `duration_label`).
pub fn duration_text(total_seconds: u64) -> (r: String)
    ensures
        r@ == duration_label(total_seconds as nat),
{
    let s = total_seconds % 60;
    let m = (total_seconds / 60) % 60;
    let h = (total_seconds / 3600) % 24;
    let d = total_seconds / 86400;
    let mut out = owned("Duration: ");
    if d > 0 {
        push_unit(&mut out, d, "d ");
        push_unit(&mut out, h, "h ");
        push_unit(&mut out, m, "m ");
    } else if h > 0 {
        push_unit(&mut out, h, "h ");
        push_unit(&mut out, m, "m ");
    } else if m > 0 {
        push_unit(&mut out, m, "m ");
    }
    push_unit(&mut out, s, "s");
    out
}

/// An ASCII decimal digit.
pub open spec fn is_digit(c: char) -> bool {
    '0' <= c <= '9'
}

/// The value of a string of decimal digits, most significant first.
pub open spec fn digits_value(s: Seq<char>) -> int
    decreases s.len(),
{
    if s.len() == 0 {
        0
    } else {
        digits_value(s.drop_last()) * 10 + ((s.last() as int) - ('0' as int))
    }
}

/// Every character is an ASCII digit.
pub open spec fn all_digits(s: Seq<char>) -> bool {
    forall|i: int| 0 <= i < s.len() ==> is_digit(#[trigger] s[i])
}

/// The text starts with a sign.
pub open spec fn has_sign(s: Seq<char>) -> bool {
    s.len() > 0 && (s[0] == '-' || s[0] == '+')
}

/// The digits after an optional sign.
pub open spec fn number_body(s: Seq<char>) -> Seq<char> {
    if has_sign(s) { s.drop_first() } else { s }
}

/// What `str::parse::<i32>` reads: an optional `+` or `-`, then one or more
/// ASCII digits whose value, with that sign, fits an `i32`.
pub open spec fn i32_text_value(s: Seq<char>) -> Option<i32> {
    let body = number_body(s);
    let v = if has_sign(s) && s[0] == '-' { -digits_value(body) } else { digits_value(body) };
    if body.len() > 0 && all_digits(body) && i32::MIN <= v <= i32::MAX {
        Some(v as i32)
    } else {
        None
    }
}

/// The comma at `i` is the text's only comma.
pub open spec fn single_comma_at(s: Seq<char>, i: int) -> bool {
    0 <= i < s.len() && s[i] == ',' && forall|j: int| 0 <= j < s.len() && j != i ==> #[trigger] s[j] != ','
}

/// The two parts of a text with exactly one comma, each trimmed of white
/// space; none for a text with no comma or more than one.
pub open spec fn vector_text_parts(s: Seq<char>) -> Option<(Seq<char>, Seq<char>)> {
    if exists|i: int| single_comma_at(s, i) {
        let i = choose|i: int| single_comma_at(s, i);
        Some((trimmed(s.take(i)), trimmed(s.skip(i + 1))))
    } else {
        None
    }
}

/// The value an edited text gives an attribute whose value is `current`:
/// an integer reads as an `i32` decimal; a boolean as exactly `true` or
/// `false`; a text as itself; a float as the `f32` the window read from the
/// text (`float_bits`); a vector needs exactly two comma-separated parts and
/// the two `f32`s the window read from them (`pair_bits`). None when the text
/// does not read as such a value.
pub open spec fn parsed_value(
    input: Seq<char>,
    current: AttributeValueView,
    float_bits: Option<u32>,
    pair_bits: Option<(u32, u32)>,
) -> Option<AttributeValueView> {
    match current {
        AttributeValueView::Integer(_) => match i32_text_value(input) {
            Some(n) => Some(AttributeValueView::Integer(n)),
            None => None,
        },
        AttributeValueView::Float(_) => match float_bits {
            Some(b) => Some(AttributeValueView::Float(b)),
            None => None,
        },
        AttributeValueView::String(_) => Some(AttributeValueView::String(input)),
        AttributeValueView::Boolean(_) => if input == "true"@ {
            Some(AttributeValueView::Boolean(true))
        } else if input == "false"@ {
            Some(AttributeValueView::Boolean(false))
        } else {
            None
        },
        AttributeValueView::Vector2(_, _) => match (vector_text_parts(input), pair_bits) {
            (Some(_), Some((x, y))) => Some(AttributeValueView::Vector2(x, y)),
            _ => None,
        },
    }
}

proof fn lemma_digits_grow(s: Seq<char>, j: int)
    requires
        forall|i: int| 0 <= i < s.len() ==> is_digit(#[trigger] s[i]),
        0 <= j <= s.len(),
    ensures
        0 <= digits_value(s.take(j)) <= digits_value(s),
    decreases s.len(),
{
    if j == s.len() {
        assert(s.take(j) =~= s);
        if s.len() > 0 {
            lemma_digits_grow(s.drop_last(), 0);
            assert(is_digit(s[s.len() - 1]));
        } else {
            assert(s.take(j) =~= Seq::<char>::empty());
        }
    } else {
        let d = s.drop_last();
        assert forall|i: int| 0 <= i < d.len() implies is_digit(#[trigger] d[i]) by {
            assert(d[i] == s[i]);
        }
        lemma_digits_grow(d, j);
        assert(d.take(j) =~= s.take(j));
        assert(is_digit(s[s.len() - 1]));
    }
}

/// Reads an `i32` as `str::parse::<i32>` does (see `i32_text_value`).
pub fn parse_i32(s: &str) -> (r: Option<i32>)
    ensures
        r == i32_text_value(s@),
{
    let n = s.unicode_len();
    let mut start: usize = 0;
    let mut neg = false;
    if n > 0 {
        let c = s.get_char(0);
        if c == '-' {
            neg = true;
            start = 1;
        } else if c == '+' {
            start = 1;
        }
    }
    let ghost body = s@.skip(start as int);
    proof {
        if start == 1 {
            assert(body =~= s@.drop_first());
        } else {
            assert(body =~= s@);
        }
    }
    if start == n {
        assert(body.len() == 0);
        return None;
    }
    let mut acc: i64 = 0;
    let mut i: usize = start;
    assert(body.take(0) =~= Seq::<char>::empty());
    while i < n
        invariant
            n == s@.len(),
            start <= i <= n,
            body == s@.skip(start as int),
            body == number_body(s@),
            neg == (s@.len() > 0 && s@[0] == '-'),
            acc == digits_value(body.take(i - start)),
            0 <= acc <= 2147483648i64,
            forall|k: int| 0 <= k < i - start ==> is_digit(#[trigger] body[k]),
        decreases n - i,
    {
        let c = s.get_char(i);
        assert(body[i - start] == c);
        if !('0' <= c && c <= '9') {
            assert(!is_digit(body[i - start]));
            assert(!all_digits(body));
            return None;
        }
        let d = (c as u32 - '0' as u32) as i64;
        let next = acc * 10 + d;
        proof {
            let k = i - start;
            assert(body.take(k + 1).drop_last() =~= body.take(k));
            assert(body.take(k + 1).last() == c);
        }
        if next > 2147483648i64 {
            proof {
                let k = i - start;
                if all_digits(body) {
                    lemma_digits_grow(body, k + 1);
                }
            }
            return None;
        }
        acc = next;
        i = i + 1;
    }
    proof {
        assert(body.take(n - start) =~= body);
    }
    if neg {
        Some((-acc) as i32)
    } else if acc <= 2147483647i64 {
        Some(acc as i32)
    } else {
        None
    }
}

/// The two trimmed parts of a text with exactly one comma (see
/// `vector_text_parts`), for the window to read as `f32`s.
pub fn vector_parts(input: &str) -> (r: Option<(String, String)>)
    ensures
        match vector_text_parts(input@) {
            Some((a, b)) => r matches Some((x, y)) && x@ == a && y@ == b,
            None => r is None,
        },
{
    let n = input.unicode_len();
    let mut first: Option<usize> = None;
    let mut i: usize = 0;
    while i < n
        invariant
            n == input@.len(),
            i <= n,
            match first {
                Some(f) => f < i && input@[f as int] == ',' && forall|j: int|
                    0 <= j < i && j != f ==> #[trigger] input@[j] != ',',
                None => forall|j: int| 0 <= j < i ==> #[trigger] input@[j] != ',',
            },
        decreases n - i,
    {
        if input.get_char(i) == ',' {
            match first {
                Some(f) => {
                    proof {
                        assert forall|c: int| !single_comma_at(input@, c) by {
                            if single_comma_at(input@, c) {
                                if c != f {
                                    assert(input@[f as int] == ',');
                                } else {
                                    assert(input@[i as int] == ',');
                                }
                            }
                        }
                    }
                    return None;
                },
                None => {
                    first = Some(i);
                },
            }
        }
        i = i + 1;
    }
    match first {
        Some(f) => {
            proof {
                assert(single_comma_at(input@, f as int));
                let c = choose|c: int| single_comma_at(input@, c);
                if c != f {
                    assert(input@[f as int] == ',');
                }
            }
            let a = trim_text(input.substring_char(0, f));
            let b = trim_text(input.substring_char(f + 1, n));
            proof {
                assert(input@.subrange(0, f as int) =~= input@.take(f as int));
                assert(input@.subrange(f + 1, n as int) =~= input@.skip(f + 1));
            }
            Some((a, b))
        },
        None => {
            proof {
                assert forall|c: int| !single_comma_at(input@, c) by {
                    if single_comma_at(input@, c) {
                        assert(input@[c] == ',');
                    }
                }
            }
            None
        },
    }
}

/// The value an edited text gives an attribute whose value is `current`
/// (see `parsed_value`); the window reads the floats.
pub fn parse_attribute_value(
    input: &str,
    current: &AttributeValue,
    float_bits: Option<u32>,
    pair_bits: Option<(u32, u32)>,
) -> (r: Option<AttributeValue>)
    ensures
        match r {
            Some(v) => parsed_value(input@, current@, float_bits, pair_bits) == Some(v@),
            None => parsed_value(input@, current@, float_bits, pair_bits) is None,
        },
{
    match current {
        AttributeValue::Integer(_) => match parse_i32(input) {
            Some(n) => Some(AttributeValue::Integer(n)),
            None => None,
        },
        AttributeValue::Float(_) => match float_bits {
            Some(b) => Some(AttributeValue::Float(b)),
            None => None,
        },
        AttributeValue::String(_) => Some(AttributeValue::String(owned(input))),
        AttributeValue::Boolean(_) => if text_eq(input, "true") {
            Some(AttributeValue::Boolean(true))
        } else if text_eq(input, "false") {
            Some(AttributeValue::Boolean(false))
        } else {
            None
        },
        AttributeValue::Vector2(_, _) => match (vector_parts(input), pair_bits) {
            (Some(_), Some((x, y))) => Some(AttributeValue::Vector2(x, y)),
            _ => None,
        },
    }
}

/// The edit text kept for an attribute: the last one recorded for its id.
pub open spec fn edit_text_of(t: Seq<(u128, Seq<char>)>, id: u128) -> Option<Seq<char>>
    decreases t.len(),
{
    if t.len() == 0 {
        None
    } else if t.last().0 == id {
        Some(t.last().1)
    } else {
        edit_text_of(t.drop_last(), id)
    }
}

/// Edit texts of other attributes than `id`.
pub open spec fn other_than(id: u128) -> spec_fn((u128, Seq<char>)) -> bool {
    |e: (u128, Seq<char>)| e.0 != id
}

/// The edit texts without the attribute's.
pub open spec fn without_edit(t: Seq<(u128, Seq<char>)>, id: u128) -> Seq<(u128, Seq<char>)> {
    t.filter(other_than(id))
}

/// The edit texts with the attribute's set to `text`.
pub open spec fn with_edit(t: Seq<(u128, Seq<char>)>, id: u128, text: Seq<char>) -> Seq<(u128, Seq<char>)> {
    without_edit(t, id).push((id, text))
}

/// The text of a boolean (as `bool`'s `Display` writes it).
pub open spec fn bool_text(b: bool) -> Seq<char> {
    if b { "true"@ } else { "false"@ }
}

/// An entity after deleting its attribute `id` (as `Entity::delete_attribute`
/// does), with the outcome: whether one was removed, or why not.
pub open spec fn deletion(e: EntityView, id: u128) -> (EntityView, Result<bool, Seq<char>>) {
    match lookup(e.attributes, id) {
        Some(a) => match deletion_refusal(e.name, a.name) {
            Some(m) => (e, Err(m)),
            None => (e.with_attributes(table_remove(e.attributes, id)), Ok(true)),
        },
        None => (e, Ok(false)),
    }
}

/// What the user does to an attribute in the inspector.
pub enum EditEvent {
    /// The attribute's delete button (shown in delete mode).
    Delete,
    /// The checkbox of a boolean attribute, now at this value.
    Toggle(bool),
    /// The attribute's text field now holds this text.
    Typed(String),
    /// The text field lost focus. The window read the edit text as an `f32`
    /// (for a float attribute) and the two parts of `vector_parts` as `f32`s
    /// (for a vector attribute), when they read as numbers; these are their
    /// bits.
    FocusLost(Option<u32>, Option<(u32, u32)>),
}

/// The edit texts after `old` with only the edit texts changed to `edits`.
pub open spec fn with_edits(v: InspectorView, edits: Seq<(u128, Seq<char>)>) -> InspectorView {
    InspectorView { edits, ..v }
}

/// The result of an edit whose entity outcome is `err`.
pub open spec fn edit_result(r: Result<(), String>, err: Option<Seq<char>>) -> bool {
    match err {
        None => r is Ok,
        Some(m) => r matches Err(x) && x@ == m,
    }
}

fn find_edit(v: &Vec<(u128, String)>, id: u128) -> (r: Option<usize>)
    ensures
        match r {
            Some(i) => i < v@.len() && edit_text_of(edit_views(v@), id) == Some(v@[i as int].1@),
            None => edit_text_of(edit_views(v@), id) is None,
        },
{
    let ghost t = edit_views(v@);
    let mut j: usize = v.len();
    assert(t.take(j as int) =~= t);
    while j > 0
        invariant
            j <= v@.len(),
            t == edit_views(v@),
            edit_text_of(t, id) == edit_text_of(t.take(j as int), id),
        decreases j,
    {
        proof {
            assert(t.take(j as int).drop_last() =~= t.take(j - 1));
            assert(t.take(j as int).last() == t[j - 1]);
        }
        if v[j - 1].0 == id {
            return Some(j - 1);
        }
        j = j - 1;
    }
    None
}

fn remove_edit(v: &mut Vec<(u128, String)>, id: u128)
    ensures
        edit_views(final(v)@) == without_edit(edit_views(old(v)@), id),
{
    let ghost t = edit_views(v@);
    let ghost p = other_than(id);
    let mut kept: Vec<(u128, String)> = Vec::new();
    let mut i: usize = 0;
    assert(edit_views(kept@) =~= t.take(0).filter(p)) by {
        assert(t.take(0) =~= Seq::<(u128, Seq<char>)>::empty());
        reveal(Seq::filter);
    }
    while i < v.len()
        invariant
            i <= v@.len(),
            t == edit_views(v@),
            p == other_than(id),
            edit_views(kept@) == t.take(i as int).filter(p),
        decreases v.len() - i,
    {
        let ghost before = edit_views(kept@);
        proof {
            assert(t.take(i + 1) =~= t.take(i as int).push(t[i as int]));
            t.take(i as int).lemma_filter_push(t[i as int], p);
        }
        if v[i].0 != id {
            let entry = (v[i].0, v[i].1.clone());
            kept.push(entry);
            assert(edit_views(kept@) =~= before.push(t[i as int]));
        }
        i = i + 1;
    }
    assert(t.take(i as int) =~= t);
    *v = kept;
}

fn set_edit(v: &mut Vec<(u128, String)>, id: u128, text: String)
    ensures
        edit_views(final(v)@) == with_edit(edit_views(old(v)@), id, text@),
{
    remove_edit(v, id);
    let ghost before = edit_views(v@);
    let ghost tv = text@;
    v.push((id, text));
    assert(edit_views(v@) =~= before.push((id, tv)));
}

/// What `char::is_alphanumeric` says of a character: it has the Unicode
/// `Alphabetic` property or is numeric.
pub uninterp spec fn unicode_alphanumeric(c: char) -> bool;

/// `char::is_alphanumeric`. Among ASCII characters exactly the letters and
/// digits are alphanumeric.
#[verifier::external_body]
fn alphanumeric(c: char) -> (r: bool)
    ensures
        r == unicode_alphanumeric(c),
        (c as u32) < 128 ==> (r <==> ('a' <= c <= 'z' || 'A' <= c <= 'Z' || '0' <= c <= '9')),
{
    c.is_alphanumeric()
}

/// A name the dialog accepts: not empty, only alphanumeric characters and
/// underscores.
pub open spec fn valid_identifier(name: Seq<char>) -> bool {
    name.len() > 0 && forall|i: int| 0 <= i < name.len() ==> unicode_alphanumeric(#[trigger] name[i]) || name[i] == '_'
}

/// The value a new attribute of this type starts with.
pub open spec fn zero_value(t: AttributeType) -> AttributeValueView {
    match t {
        AttributeType::Integer => AttributeValueView::Integer(0),
        AttributeType::Float => AttributeValueView::Float(F32_ZERO),
        AttributeType::String => AttributeValueView::String(Seq::empty()),
        AttributeType::Boolean => AttributeValueView::Boolean(false),
        AttributeType::Vector2 => AttributeValueView::Vector2(F32_ZERO, F32_ZERO),
    }
}

/// The dialog's state.
pub struct Inspector {
    pub show_metadata_popup: bool,
    pub metadata_new_name: String,
    pub metadata_new_type: AttributeType,
    pub metadata_new_value: AttributeValue,
    pub metadata_error_message: String,
    /// An entity changed, so the project is to be saved.
    pub data_updated: bool,
    /// The text being edited for each attribute id.
    pub editing_states: Vec<(u128, String)>,
    /// Attributes show a delete button.
    pub delete_mode: bool,
}

pub struct InspectorView {
    pub show_metadata_popup: bool,
    pub metadata_new_name: Seq<char>,
    pub metadata_new_type: AttributeType,
    pub metadata_new_value: AttributeValueView,
    pub metadata_error_message: Seq<char>,
    pub data_updated: bool,
    pub edits: Seq<(u128, Seq<char>)>,
    pub delete_mode: bool,
}

/// The views of the edit texts.
pub open spec fn edit_views(v: Seq<(u128, String)>) -> Seq<(u128, Seq<char>)> {
    v.map_values(|e: (u128, String)| (e.0, e.1@))
}

impl View for Inspector {
    type V = InspectorView;

    open spec fn view(&self) -> InspectorView {
        InspectorView {
            show_metadata_popup: self.show_metadata_popup,
            metadata_new_name: self.metadata_new_name@,
            metadata_new_type: self.metadata_new_type,
            metadata_new_value: self.metadata_new_value@,
            metadata_error_message: self.metadata_error_message@,
            data_updated: self.data_updated,
            edits: edit_views(self.editing_states@),
            delete_mode: self.delete_mode,
        }
    }
}

impl InspectorView {
    /// The dialog closed and back to its start: no name, a text attribute,
    /// no error.
    pub open spec fn closed(self) -> InspectorView {
        InspectorView {
            show_metadata_popup: false,
            metadata_new_name: Seq::empty(),
            metadata_new_type: AttributeType::String,
            metadata_new_value: AttributeValueView::String(Seq::empty()),
            metadata_error_message: Seq::empty(),
            ..self
        }
    }
}

fn is_identifier(name: &str) -> (r: bool)
    ensures
        r == valid_identifier(name@),
{
    let n = name.unicode_len();
    if n == 0 {
        return false;
    }
    let mut i: usize = 0;
    while i < n
        invariant
            n == name@.len(),
            i <= n,
            forall|j: int| 0 <= j < i ==> unicode_alphanumeric(#[trigger] name@[j]) || name@[j] == '_',
        decreases n - i,
    {
        let c = name.get_char(i);
        if !(alphanumeric(c) || c == '_') {
            return false;
        }
        i = i + 1;
    }
    true
}

impl Inspector {
    /// The dialog closed, set for a text attribute, nothing changed yet.
    pub fn new() -> (r: Self)
        ensures
            r@ == (InspectorView {
                show_metadata_popup: false,
                metadata_new_name: Seq::empty(),
                metadata_new_type: AttributeType::String,
                metadata_new_value: AttributeValueView::String(Seq::empty()),
                metadata_error_message: Seq::empty(),
                data_updated: false,
                edits: Seq::empty(),
                delete_mode: false,
            }),
    {
        let r = Inspector {
            show_metadata_popup: false,
            metadata_new_name: String::new(),
            metadata_new_type: AttributeType::String,
            metadata_new_value: AttributeValue::String(String::new()),
            metadata_error_message: String::new(),
            data_updated: false,
            editing_states: Vec::new(),
            delete_mode: false,
        };
        assert(edit_views(r.editing_states@) =~= Seq::<(u128, Seq<char>)>::empty());
        r
    }

    /// Whether the dialog accepts `name` (see `valid_identifier`).
    pub fn is_valid_identifier(&self, name: &str) -> (r: bool)
        ensures
            r == valid_identifier(name@),
    {
        is_identifier(name)
    }

    /// Picks the new attribute's type; its value starts at that type's zero.
    pub fn choose_metadata_type(&mut self, t: AttributeType)
        ensures
            final(self)@ == (InspectorView { metadata_new_type: t, metadata_new_value: zero_value(t), ..old(self)@ }),
    {
        self.metadata_new_value = match t {
            AttributeType::Integer => AttributeValue::Integer(0),
            AttributeType::Float => AttributeValue::Float(F32_ZERO),
            AttributeType::String => AttributeValue::String(String::new()),
            AttributeType::Boolean => AttributeValue::Boolean(false),
            AttributeType::Vector2 => AttributeValue::Vector2(F32_ZERO, F32_ZERO),
        };
        self.metadata_new_type = t;
    }

    /// "Create": with a valid name, the entity gains `metadata_<name>` with
    /// the chosen type and value (under a fresh id), the change is flagged
    /// for saving and the dialog closes; an invalid name, or one the entity
    /// already uses, leaves the entity alone and shows why. Returns whether
    /// the entity changed.
    pub fn create_metadata_attribute(&mut self, entity: &mut Entity) -> (r: bool)
        ensures
            ({
                let v = old(self)@;
                let full = "metadata_"@ + v.metadata_new_name;
                if !valid_identifier(v.metadata_new_name) {
                    &&& !r
                    &&& final(entity)@ == old(entity)@
                    &&& final(self)@ == (InspectorView {
                        metadata_error_message: "Invalid identifier name. Use alphanumeric or underscores."@,
                        ..v
                    })
                } else if has_named(old(entity)@.attributes, full) {
                    &&& !r
                    &&& final(entity)@ == old(entity)@
                    &&& final(self)@ == (InspectorView {
                        metadata_error_message: "Attribute '"@ + full + "' already exists"@,
                        ..v
                    })
                } else {
                    &&& r
                    &&& final(self)@ == (InspectorView { data_updated: true, ..v.closed() })
                    &&& exists|id: u128| final(entity)@ == old(entity)@.with_attributes(#[trigger] table_insert(
                        old(entity)@.attributes,
                        id,
                        defined(id, (full, v.metadata_new_type, v.metadata_new_value)),
                    ))
                }
            }),
    {
        if !is_identifier(self.metadata_new_name.as_str()) {
            self.metadata_error_message = owned("Invalid identifier name. Use alphanumeric or underscores.");
            return false;
        }
        let full_name = joined("metadata_", self.metadata_new_name.as_str());
        let value = self.metadata_new_value.clone();
        match entity.create_attribute(full_name.as_str(), self.metadata_new_type, value) {
            Ok(_) => {
                self.data_updated = true;
                self.show_metadata_popup = false;
                self.metadata_new_name = String::new();
                self.metadata_new_type = AttributeType::String;
                self.metadata_new_value = AttributeValue::String(String::new());
                self.metadata_error_message = String::new();
                true
            },
            Err(e) => {
                self.metadata_error_message = e;
                false
            },
        }
    }

    /// "Cancel": closes the dialog and clears it.
    pub fn cancel_metadata_popup(&mut self)
        ensures
            final(self)@ == old(self)@.closed(),
    {
        self.show_metadata_popup = false;
        self.metadata_new_name = String::new();
        self.metadata_new_type = AttributeType::String;
        self.metadata_new_value = AttributeValue::String(String::new());
        self.metadata_error_message = String::new();
    }

    /// Turns delete mode on or off.
    pub fn toggle_delete_mode(&mut self)
        ensures
            final(self)@ == (InspectorView { delete_mode: !old(self)@.delete_mode, ..old(self)@ }),
    {
        self.delete_mode = !self.delete_mode;
    }

    /// The text the attribute's field shows: the one being edited, or else
    /// `shown` (the window's text of the attribute's value), which is then
    /// kept as the edit text.
    pub fn edit_text(&mut self, id: u128, shown: String) -> (r: String)
        ensures
            match edit_text_of(old(self)@.edits, id) {
                Some(t) => r@ == t && final(self)@ == old(self)@,
                None => r@ == shown@ && final(self)@ == with_edits(old(self)@, with_edit(old(self)@.edits, id, shown@)),
            },
    {
        match find_edit(&self.editing_states, id) {
            Some(i) => self.editing_states[i].1.clone(),
            None => {
                let r = shown.clone();
                set_edit(&mut self.editing_states, id, shown);
                r
            },
        }
    }

    /// One edit of attribute `id` of `entity`:
    /// - `Delete` (in delete mode only) deletes the attribute as
    ///   `Entity::delete_attribute` does, drops its edit text and flags the
    ///   change, even when the deletion is refused (the error is returned);
    /// - `Toggle(b)`, for a boolean attribute, sets its value to `b` as
    ///   `Entity::modify_attribute` does, keeps `b`'s text as the edit text
    ///   and flags the change; for any other attribute it does nothing;
    /// - `Typed(t)` keeps `t` as the edit text;
    /// - `FocusLost` reads the edit text as the attribute's type (see
    ///   `parsed_value`) and drops it; a value read is set, and the change
    ///   flagged. With no edit text nothing happens; with no such attribute
    ///   the edit text is dropped and "Attribute not found" returned.
    pub fn edit_attribute(&mut self, entity: &mut Entity, id: u128, event: EditEvent) -> (r: Result<(), String>)
        ensures
            ({
                let v = old(self)@;
                let e = old(entity)@;
                match event {
                    EditEvent::Delete => if !v.delete_mode {
                        r is Ok && final(entity)@ == e && final(self)@ == v
                    } else {
                        &&& final(entity)@ == deletion(e, id).0
                        &&& match deletion(e, id).1 {
                            Ok(_) => r is Ok,
                            Err(m) => r matches Err(x) && x@ == m,
                        }
                        &&& final(self)@ == (InspectorView { edits: without_edit(v.edits, id), data_updated: true, ..v })
                    },
                    EditEvent::Toggle(b) => match lookup(e.attributes, id) {
                        Some(a) => if a.value is Boolean {
                            &&& final(entity)@ == value_update(e, id, AttributeValueView::Boolean(b)).0
                            &&& edit_result(r, value_update(e, id, AttributeValueView::Boolean(b)).1)
                            &&& final(self)@ == (InspectorView {
                                edits: with_edit(v.edits, id, bool_text(b)),
                                data_updated: true,
                                ..v
                            })
                        } else {
                            r is Ok && final(entity)@ == e && final(self)@ == v
                        },
                        None => r is Ok && final(entity)@ == e && final(self)@ == v,
                    },
                    EditEvent::Typed(t) => r is Ok && final(entity)@ == e
                        && final(self)@ == with_edits(v, with_edit(v.edits, id, t@)),
                    EditEvent::FocusLost(float_bits, pair_bits) => match edit_text_of(v.edits, id) {
                        None => r is Ok && final(entity)@ == e && final(self)@ == v,
                        Some(t) => match lookup(e.attributes, id) {
                            None => r matches Err(x) && x@ == "Attribute not found"@ && final(entity)@ == e
                                && final(self)@ == with_edits(v, without_edit(v.edits, id)),
                            Some(a) => match parsed_value(t, a.value, float_bits, pair_bits) {
                                None => r is Ok && final(entity)@ == e
                                    && final(self)@ == with_edits(v, without_edit(v.edits, id)),
                                Some(nv) => {
                                    &&& final(entity)@ == value_update(e, id, nv).0
                                    &&& edit_result(r, value_update(e, id, nv).1)
                                    &&& final(self)@ == (InspectorView {
                                        edits: without_edit(v.edits, id),
                                        data_updated: true,
                                        ..v
                                    })
                                },
                            },
                        },
                    },
                }
            }),
    {
        match event {
            EditEvent::Delete => {
                if !self.delete_mode {
                    return Ok(());
                }
                let result = entity.delete_attribute(id);
                remove_edit(&mut self.editing_states, id);
                self.data_updated = true;
                match result {
                    Ok(_) => Ok(()),
                    Err(m) => Err(m),
                }
            },
            EditEvent::Toggle(b) => {
                let is_bool = match entity.get_attribute(id) {
                    Ok(a) => match a.value {
                        AttributeValue::Boolean(_) => true,
                        _ => false,
                    },
                    Err(_) => false,
                };
                if !is_bool {
                    return Ok(());
                }
                let result = entity.modify_attribute(id, None, None, Some(AttributeValue::Boolean(b)));
                let text = if b { owned("true") } else { owned("false") };
                set_edit(&mut self.editing_states, id, text);
                self.data_updated = true;
                result
            },
            EditEvent::Typed(t) => {
                set_edit(&mut self.editing_states, id, t);
                Ok(())
            },
            EditEvent::FocusLost(float_bits, pair_bits) => {
                let text = match find_edit(&self.editing_states, id) {
                    Some(i) => self.editing_states[i].1.clone(),
                    None => return Ok(()),
                };
                let parsed = match entity.get_attribute(id) {
                    Ok(a) => parse_attribute_value(text.as_str(), &a.value, float_bits, pair_bits),
                    Err(_) => {
                        remove_edit(&mut self.editing_states, id);
                        return Err(owned("Attribute not found"));
                    },
                };
                remove_edit(&mut self.editing_states, id);
                match parsed {
                    Some(nv) => {
                        let result = entity.modify_attribute(id, None, None, Some(nv));
                        self.data_updated = true;
                        result
                    },
                    None => Ok(()),
                }
            },
        }
    }
}

} // verus!
