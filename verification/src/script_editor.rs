//! The script editor: the syntax report shown under the buffer, and the
//! insertion of snippets at the cursor.
use vstd::prelude::*;
use crate::paths::chars_to_string;
use crate::text::{occurs_at, occurs_at_exec};

verus! {

/// The text (its `Display`) of the error that mlua gives when it loads
/// `source` as a Lua chunk named `chunk_name`, when loading fails.
pub uninterp spec fn lua_load_error(source: Seq<char>, chunk_name: Seq<char>) -> Option<Seq<char>>;

/// `mlua::Lua::load(source).set_name(chunk_name).into_function()` on a new
/// Lua state: compiles the chunk without running it, and gives the error's
/// text when it does not compile. The outcome is a function of the source and
/// the name alone; it is named, not described.
#[verifier::external_body]
fn lua_load(source: &str, chunk_name: &str) -> (r: Option<String>)
    ensures
        match r {
            Some(m) => lua_load_error(source@, chunk_name@) == Some(m@),
            None => lua_load_error(source@, chunk_name@) is None,
        },
{
    let lua = mlua::Lua::new();
    match lua.load(source).set_name(chunk_name).into_function() {
        Ok(_) => None,
        Err(e) => Some(e.to_string()),
    }
}

/// `s` with every occurrence of `pat` replaced by `rep`, occurrences found
/// from the left without overlapping (as `str::replace` finds them).
pub open spec fn replace_all(s: Seq<char>, pat: Seq<char>, rep: Seq<char>) -> Seq<char>
    decreases s.len(),
{
    if s.len() == 0 {
        Seq::empty()
    } else if pat.len() > 0 && pat.len() <= s.len() && s.take(pat.len() as int) == pat {
        rep + replace_all(s.skip(pat.len() as int), pat, rep)
    } else {
        seq![s[0]] + replace_all(s.skip(1), pat, rep)
    }
}

/// The first line of `s` (as `str::lines` gives it): what comes before the
/// first `\n`, without a `\r` just before it; all of `s` when it has none.
pub open spec fn first_line(s: Seq<char>) -> Seq<char>
    decreases s.len(),
{
    if s.len() == 0 {
        s
    } else if s[0] == '\n' {
        Seq::empty()
    } else if s.len() >= 2 && s[0] == '\r' && s[1] == '\n' {
        Seq::empty()
    } else {
        seq![s[0]] + first_line(s.skip(1))
    }
}

/// How a load error is shown: its `[string "script"]:` locations written as
/// `line `, and only its first line.
pub open spec fn friendly_error(message: Seq<char>) -> Seq<char> {
    first_line(replace_all(message, "[string \"script\"]:"@, "line "@))
}

/// The characters of `rep`, pushed onto `out`.
fn push_text(out: &mut Vec<char>, rep: &str)
    ensures
        final(out)@ == old(out)@ + rep@,
{
    let n = rep.unicode_len();
    let mut j: usize = 0;
    let ghost start = out@;
    while j < n
        invariant
            n == rep@.len(),
            j <= n,
            out@ == start + rep@.take(j as int),
        decreases n - j,
    {
        out.push(rep.get_char(j));
        proof {
            assert(rep@.take(j + 1) =~= rep@.take(j as int).push(rep@[j as int]));
        }
        j = j + 1;
    }
    assert(rep@.take(n as int) =~= rep@);
}

/// `s` with every occurrence of `pat` replaced by `rep` (see `replace_all`).
pub fn replace_text(s: &str, pat: &str, rep: &str) -> (r: String)
    requires
        pat@.len() > 0,
    ensures
        r@ == replace_all(s@, pat@, rep@),
{
    let n = s.unicode_len();
    let p = pat.unicode_len();
    let mut out: Vec<char> = Vec::new();
    let mut i: usize = 0;
    proof {
        assert(s@.skip(0) =~= s@);
    }
    while i < n
        invariant
            n == s@.len(),
            p == pat@.len(),
            p > 0,
            i <= n,
            replace_all(s@, pat@, rep@) == out@ + replace_all(s@.skip(i as int), pat@, rep@),
        decreases n - i,
    {
        let ghost rest = s@.skip(i as int);
        let ghost o0 = out@;
        if p <= n - i && occurs_at_exec(s, pat, i, n, p) {
            proof {
                assert(rest.take(p as int) =~= s@.subrange(i as int, i + p));
                assert(rest.skip(p as int) =~= s@.skip(i + p));
            }
            push_text(&mut out, rep);
            i = i + p;
            proof {
                assert(o0 + (rep@ + replace_all(s@.skip(i as int), pat@, rep@)) =~= out@ + replace_all(
                    s@.skip(i as int),
                    pat@,
                    rep@,
                ));
            }
        } else {
            proof {
                if p <= n - i {
                    assert(!occurs_at(s@, pat@, i as int));
                    assert(rest.take(p as int) != pat@) by {
                        if rest.take(p as int) == pat@ {
                            assert(rest.take(p as int) =~= s@.subrange(i as int, i + p));
                        }
                    }
                }
                assert(rest.skip(1) =~= s@.skip(i + 1));
                assert(rest[0] == s@[i as int]);
            }
            out.push(s.get_char(i));
            i = i + 1;
            proof {
                assert(o0 + (seq![s@[i - 1]] + replace_all(s@.skip(i as int), pat@, rep@)) =~= out@ + replace_all(
                    s@.skip(i as int),
                    pat@,
                    rep@,
                ));
            }
        }
    }
    proof {
        assert(out@ + replace_all(s@.skip(n as int), pat@, rep@) =~= out@);
    }
    chars_to_string(&out)
}

/// The first line of `s` (see `first_line`).
pub fn first_line_of(s: &str) -> (r: String)
    ensures
        r@ == first_line(s@),
{
    let n = s.unicode_len();
    let mut out: Vec<char> = Vec::new();
    let mut i: usize = 0;
    proof {
        assert(s@.skip(0) =~= s@);
    }
    while i < n
        invariant
            n == s@.len(),
            i <= n,
            first_line(s@) == out@ + first_line(s@.skip(i as int)),
        decreases n - i,
    {
        let ghost rest = s@.skip(i as int);
        let c = s.get_char(i);
        proof {
            assert(rest[0] == c);
        }
        if c == '\n' {
            proof {
                assert(out@ + first_line(rest) =~= out@);
            }
            return chars_to_string(&out);
        }
        if c == '\r' && i + 1 < n && s.get_char(i + 1) == '\n' {
            proof {
                assert(rest[1] == s@[i + 1]);
                assert(out@ + first_line(rest) =~= out@);
            }
            return chars_to_string(&out);
        }
        let ghost o0 = out@;
        out.push(c);
        proof {
            assert(rest.skip(1) =~= s@.skip(i + 1));
            if c == '\r' && rest.len() >= 2 {
                assert(rest[1] == s@[i + 1]);
            }
            assert(o0 + (seq![c] + first_line(rest.skip(1))) =~= out@ + first_line(s@.skip(i + 1)));
        }
        i = i + 1;
    }
    proof {
        assert(out@ + first_line(s@.skip(n as int)) =~= out@);
    }
    chars_to_string(&out)
}

/// How a load error is shown (see `friendly_error`); nothing when the
/// script loaded.
pub fn syntax_report(load_error: Option<String>) -> (r: Option<String>)
    ensures
        match load_error {
            None => r is None,
            Some(m) => r matches Some(t) && t@ == friendly_error(m@),
        },
{
    match load_error {
        None => None,
        Some(m) => {
            proof {
                reveal_strlit("[string \"script\"]:");
            }
            let replaced = replace_text(m.as_str(), "[string \"script\"]:", "line ");
            Some(first_line_of(replaced.as_str()))
        },
    }
}

/// Loads the buffer as a Lua chunk named `script` and gives the
/// human-readable error, if any (see `syntax_report`).
pub fn check_script_syntax(source: &str) -> (r: Option<String>)
    ensures
        match lua_load_error(source@, "script"@) {
            None => r is None,
            Some(m) => r matches Some(t) && t@ == friendly_error(m),
        },
{
    let loaded = lua_load(source, "script");
    syntax_report(loaded)
}

/// The script open in the editor: its path, its text, whether the text has
/// unsaved changes, and the syntax report of the text.
#[derive(Debug)]
pub struct EditorBuffer {
    pub current_edited_file: Option<String>,
    pub editor_content: String,
    pub editor_dirty: bool,
    pub syntax_error: Option<String>,
}

/// The character position where a snippet goes: the cursor's, or the end
/// when there is no cursor, never past the end.
pub open spec fn insertion_point(len: nat, cursor: Option<usize>) -> nat {
    let c: nat = match cursor {
        Some(c) => c as nat,
        None => len,
    };
    if c < len { c } else { len }
}

/// The message given when a snippet is inserted with no script open.
pub open spec fn no_script_open() -> Seq<char> {
    "Open a script in the editor first, then insert snippets."@
}

/// The syntax report is the one of this text.
pub open spec fn reports_on(report: Option<String>, text: Seq<char>) -> bool {
    match lua_load_error(text, "script"@) {
        None => report is None,
        Some(m) => report matches Some(t) && t@ == friendly_error(m),
    }
}

impl EditorBuffer {
    /// An empty editor with no script open.
    pub fn new() -> (r: Self)
        ensures
            r.current_edited_file is None,
            r.editor_content@.len() == 0,
            !r.editor_dirty,
            r.syntax_error is None,
    {
        EditorBuffer { current_edited_file: None, editor_content: String::new(), editor_dirty: false, syntax_error: None }
    }

    /// Inserts `text` at the cursor (see `insertion_point`); the buffer is
    /// then unsaved and checked again. Returns the cursor after the
    /// snippet; with no script open nothing changes and the error says so.
    pub fn insert_into_editor(&mut self, cursor: Option<usize>, text: &str) -> (r: Result<usize, String>)
        requires
            old(self).editor_content@.len() + text@.len() <= usize::MAX,
        ensures
            old(self).current_edited_file is None ==> (r matches Err(m) && m@ == no_script_open()
                && *final(self) == *old(self)),
            old(self).current_edited_file is Some ==> {
                let content = old(self).editor_content@;
                let c = insertion_point(content.len(), cursor);
                &&& final(self).editor_content@ == content.take(c as int) + text@ + content.skip(c as int)
                &&& final(self).editor_dirty
                &&& reports_on(final(self).syntax_error, final(self).editor_content@)
                &&& final(self).current_edited_file == old(self).current_edited_file
                &&& r == Ok::<usize, String>((c + text@.len()) as usize)
            },
    {
        if self.current_edited_file.is_none() {
            return Err("Open a script in the editor first, then insert snippets.".to_string());
        }
        let n = self.editor_content.unicode_len();
        let c = match cursor {
            Some(c) => if c < n { c } else { n },
            None => n,
        };
        let head = self.editor_content.substring_char(0, c);
        let tail = self.editor_content.substring_char(c, n);
        let updated = crate::text::joined3(head, text, tail);
        proof {
            assert(head@ =~= self.editor_content@.take(c as int));
            assert(tail@ =~= self.editor_content@.skip(c as int));
        }
        let report = check_script_syntax(updated.as_str());
        self.editor_content = updated;
        self.editor_dirty = true;
        self.syntax_error = report;
        Ok(c + text.unicode_len())
    }

    /// What saving writes: the open script's path and text when the text
    /// has unsaved changes; nothing when it has none or no script is open.
    pub fn pending_save(&self) -> (r: Option<(String, String)>)
        ensures
            match r {
                Some((p, c)) => {
                    &&& self.editor_dirty
                    &&& self.current_edited_file matches Some(f) && f@ == p@
                    &&& c@ == self.editor_content@
                },
                None => !self.editor_dirty || self.current_edited_file is None,
            },
    {
        if !self.editor_dirty {
            return None;
        }
        match &self.current_edited_file {
            Some(f) => Some((f.clone(), self.editor_content.clone())),
            None => None,
        }
    }

    /// The text was written: it has no unsaved changes any more.
    pub fn mark_saved(&mut self)
        ensures
            *final(self) == (EditorBuffer { editor_dirty: false, ..*old(self) }),
    {
        self.editor_dirty = false;
    }
}

} // verus!
