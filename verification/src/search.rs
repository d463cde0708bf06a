//! Searching a process table: the search settings of a widget, the pattern
//! that they stand for, and the rows that the pattern lets through.

use vstd::prelude::*;
use vstd::string::StringExecFns;
use crate::process::{ProcessRow, RowView, rows_view};
use crate::text::text_of;

verus! {

/// A compiled regular expression. Its inside is opaque: [`regex_pattern`]
/// names the pattern text that it holds, and [`regex_accepts`] what it
/// matches. The text alone does not say what an expression matches: that
/// depends on how it was built.
#[verifier::external_type_specification]
#[verifier::external_body]
pub struct ExRegex(regex::Regex);

/// The error that compiling a pattern can give.
#[verifier::external_type_specification]
#[verifier::external_body]
pub struct ExRegexError(regex::Error);

/// Whether `pattern` compiles as a regular expression (`Regex::new` returns
/// `Ok`).
pub uninterp spec fn pattern_compiles(pattern: Seq<char>) -> bool;

/// The pattern text that a compiled expression holds (what `Regex::as_str`
/// returns).
pub uninterp spec fn regex_pattern(regex: regex::Regex) -> Seq<char>;

/// Whether the expression that `Regex::new` compiles from `pattern`, under
/// its fixed default settings, matches anywhere in `haystack`.
pub uninterp spec fn pattern_matches(pattern: Seq<char>, haystack: Seq<char>) -> bool;

/// Whether a compiled expression, however it was built, matches anywhere in
/// `haystack` (`Regex::is_match`).
pub uninterp spec fn regex_accepts(regex: regex::Regex, haystack: Seq<char>) -> bool;

/// `Regex::new`. Trusted: it returns `Ok` exactly for the patterns that
/// compile; the expression it returns holds the pattern it was given, and
/// matches what that pattern matches under the default settings, with which
/// `Regex::new` always compiles.
pub assume_specification[ regex::Regex::new ](re: &str) -> (compiled: Result<
    regex::Regex,
    regex::Error,
>)
    ensures
        compiled is Ok <==> pattern_compiles(re@),
        compiled matches Ok(regex) ==> regex_pattern(regex) == re@,
        compiled matches Ok(regex) ==> forall|haystack: Seq<char>| #[trigger]
            regex_accepts(regex, haystack) == pattern_matches(re@, haystack),
;

/// `Regex::is_match`. Trusted: whether there is a match depends on the
/// compiled expression and on the haystack alone.
pub assume_specification[ regex::Regex::is_match ](regex: &regex::Regex, haystack: &str) -> (found:
    bool)
    ensures
        found == regex_accepts(*regex, haystack@),
;

/// The texts that the expression compiled by `Regex::new` from `pattern`
/// matches.
pub open spec fn matcher_of_pattern(pattern: Seq<char>) -> spec_fn(Seq<char>) -> bool {
    |haystack: Seq<char>| pattern_matches(pattern, haystack)
}

/// The texts that a compiled expression matches.
pub open spec fn matcher_of_regex(regex: regex::Regex) -> spec_fn(Seq<char>) -> bool {
    |haystack: Seq<char>| regex_accepts(regex, haystack)
}

/// `regex` is what `Regex::new` compiles from `pattern`: it holds that
/// text and matches what the pattern matches.
pub open spec fn is_compiled_from(regex: regex::Regex, pattern: Seq<char>) -> bool {
    &&& regex_pattern(regex) == pattern
    &&& forall|haystack: Seq<char>| #[trigger]
        regex_accepts(regex, haystack) == pattern_matches(pattern, haystack)
}

/// The characters that have a meaning of their own in a pattern.
pub open spec fn is_meta_character(c: char) -> bool {
    c == '\\' || c == '.' || c == '+' || c == '*' || c == '?' || c == '(' || c == ')' || c == '|'
        || c == '[' || c == ']' || c == '{' || c == '}' || c == '^' || c == '$' || c == '#' || c
        == '&' || c == '-' || c == '~'
}

/// `text` with a backslash before each character that has a meaning of its
/// own in a pattern.
pub open spec fn escaped(text: Seq<char>) -> Seq<char>
    decreases text.len(),
{
    if text.len() == 0 {
        Seq::empty()
    } else if is_meta_character(text.last()) {
        escaped(text.drop_last()).push('\\').push(text.last())
    } else {
        escaped(text.drop_last()).push(text.last())
    }
}

/// `regex::escape`. Trusted: it copies the text and puts a backslash before
/// each meta character.
pub assume_specification[ regex::escape ](pattern: &str) -> (quoted: String)
    ensures
        quoted@ == escaped(pattern@),
;

/// Why a search cannot filter the table.
#[derive(Clone, Copy, Debug, PartialEq, Eq, Structural)]
pub enum SearchPatternError {
    /// The query is empty.
    Blank,
    /// The query does not compile as a pattern.
    Invalid,
}

/// The search settings of a process widget, with the search box's text and
/// cursor.
#[derive(Clone, Debug, PartialEq, Eq)]
pub struct ProcessSearchState {
    /// The text of the search box.
    pub current_search_query: Vec<char>,
    /// The cursor, as the number of characters before it.
    pub cursor_position: usize,
    /// The search box is open and takes the keys.
    pub is_enabled: bool,
    pub is_ignoring_case: bool,
    pub is_searching_whole_word: bool,
    pub is_searching_with_regex: bool,
}

/// The pattern that a search stands for. A query that is not a regular
/// expression is taken literally; `(?i)` makes the match ignore case; a
/// whole-word search is anchored at both ends.
pub open spec fn search_pattern(
    query: Seq<char>,
    is_ignoring_case: bool,
    is_searching_whole_word: bool,
    is_searching_with_regex: bool,
) -> Seq<char> {
    let head: Seq<char> = if is_searching_whole_word {
        seq!['^']
    } else {
        Seq::empty()
    };
    let flags: Seq<char> = if is_ignoring_case {
        seq!['(', '?', 'i', ')']
    } else {
        Seq::empty()
    };
    let body = if is_searching_with_regex {
        query
    } else {
        escaped(query)
    };
    let tail: Seq<char> = if is_searching_whole_word {
        seq!['$']
    } else {
        Seq::empty()
    };
    head + flags + body + tail
}

/// An edit of the search box.
#[derive(Clone, Copy, Debug, PartialEq, Eq, Structural)]
pub enum SearchEdit {
    /// Type a character at the cursor.
    Insert(char),
    /// Remove the character before the cursor.
    Backspace,
    /// Remove the character at the cursor.
    Delete,
    CursorLeft,
    CursorRight,
    CursorStart,
    CursorEnd,
    /// Remove the whole text.
    Clear,
}

/// The text of the search box after an edit with the cursor at `cursor`.
pub open spec fn text_after(edit: SearchEdit, text: Seq<char>, cursor: int) -> Seq<char> {
    match edit {
        SearchEdit::Insert(c) => text.insert(cursor, c),
        SearchEdit::Backspace => if cursor > 0 {
            text.remove(cursor - 1)
        } else {
            text
        },
        SearchEdit::Delete => if cursor < text.len() {
            text.remove(cursor)
        } else {
            text
        },
        SearchEdit::Clear => Seq::empty(),
        _ => text,
    }
}

/// The cursor of the search box after an edit.
pub open spec fn cursor_after(edit: SearchEdit, text: Seq<char>, cursor: int) -> int {
    match edit {
        SearchEdit::Insert(c) => cursor + 1,
        SearchEdit::Backspace => if cursor > 0 {
            cursor - 1
        } else {
            cursor
        },
        SearchEdit::Delete => cursor,
        SearchEdit::CursorLeft => if cursor > 0 {
            cursor - 1
        } else {
            cursor
        },
        SearchEdit::CursorRight => if cursor < text.len() {
            cursor + 1
        } else {
            cursor
        },
        SearchEdit::CursorStart => 0,
        SearchEdit::CursorEnd => text.len() as int,
        SearchEdit::Clear => 0,
    }
}

/// Whether an edit can change the text, and with it the filtered list.
pub open spec fn edit_changes_text(edit: SearchEdit) -> bool {
    match edit {
        SearchEdit::Insert(c) => true,
        SearchEdit::Backspace => true,
        SearchEdit::Delete => true,
        SearchEdit::Clear => true,
        _ => false,
    }
}

impl ProcessSearchState {
    /// The pattern that this search stands for.
    pub open spec fn pattern(&self) -> Seq<char> {
        search_pattern(
            self.current_search_query@,
            self.is_ignoring_case,
            self.is_searching_whole_word,
            self.is_searching_with_regex,
        )
    }

    /// The query is empty.
    pub open spec fn is_blank(&self) -> bool {
        self.current_search_query@.len() == 0
    }

    /// The query is not empty and its pattern does not compile.
    pub open spec fn is_invalid(&self) -> bool {
        !self.is_blank() && !pattern_compiles(self.pattern())
    }

    /// The pattern by which the table is filtered: none where the query is
    /// blank or invalid.
    pub open spec fn active_pattern(&self) -> Option<Seq<char>> {
        if self.is_blank() || self.is_invalid() {
            None
        } else {
            Some(self.pattern())
        }
    }

    /// A search with an empty query.
    pub fn new(is_ignoring_case: bool, is_searching_whole_word: bool, is_searching_with_regex: bool)
        -> (search: ProcessSearchState)
        ensures
            search.current_search_query@ == Seq::<char>::empty(),
            search.cursor_position == 0,
            !search.is_enabled,
            search.is_ignoring_case == is_ignoring_case,
            search.is_searching_whole_word == is_searching_whole_word,
            search.is_searching_with_regex == is_searching_with_regex,
    {
        ProcessSearchState {
            current_search_query: Vec::new(),
            cursor_position: 0,
            is_enabled: false,
            is_ignoring_case,
            is_searching_whole_word,
            is_searching_with_regex,
        }
    }

    /// Builds the text of the pattern that this search stands for.
    pub fn pattern_text(&self) -> (text: String)
        ensures
            text@ == self.pattern(),
    {
        proof {
            reveal_strlit("^");
            reveal_strlit("(?i)");
            reveal_strlit("$");
        }
        let mut text = String::new();
        if self.is_searching_whole_word {
            text.append("^");
        }
        if self.is_ignoring_case {
            text.append("(?i)");
        }
        let query = text_of(&self.current_search_query);
        if self.is_searching_with_regex {
            text.append(query.as_str());
        } else {
            let quoted = regex::escape(query.as_str());
            text.append(quoted.as_str());
        }
        if self.is_searching_whole_word {
            text.append("$");
        }
        proof {
            assert("^"@ =~= seq!['^']);
            assert("(?i)"@ =~= seq!['(', '?', 'i', ')']);
            assert("$"@ =~= seq!['$']);
            assert(text@ =~= self.pattern());
        }
        text
    }

    /// The texts that the search lets through: none to tell where the query
    /// is blank or invalid.
    pub open spec fn active_matcher(&self) -> Option<spec_fn(Seq<char>) -> bool> {
        match self.active_pattern() {
            Some(pattern) => Some(matcher_of_pattern(pattern)),
            None => None,
        }
    }

    /// Compiles the search. A blank query and a pattern that does not compile
    /// give their errors; every other search gives the expression compiled
    /// from its pattern.
    pub fn compile(&self) -> (compiled: Result<regex::Regex, SearchPatternError>)
        ensures
            match compiled {
                Ok(regex) => self.active_pattern() == Some(self.pattern()) && is_compiled_from(
                    regex,
                    self.pattern(),
                ),
                Err(SearchPatternError::Blank) => self.is_blank(),
                Err(SearchPatternError::Invalid) => self.is_invalid(),
            },
    {
        if self.current_search_query.len() == 0 {
            return Err(SearchPatternError::Blank);
        }
        let text = self.pattern_text();
        match regex::Regex::new(text.as_str()) {
            Ok(regex) => Ok(regex),
            Err(_) => Err(SearchPatternError::Invalid),
        }
    }

    /// Whether the search leaves the table unfiltered: the query is blank or
    /// its pattern does not compile.
    pub fn is_invalid_or_blank_search(&self) -> (unfiltered: bool)
        ensures
            unfiltered == (self.active_pattern() is None),
    {
        self.compile().is_err()
    }

    /// The cursor, held within the text.
    pub open spec fn cursor(&self) -> int {
        if self.cursor_position <= self.current_search_query@.len() {
            self.cursor_position as int
        } else {
            self.current_search_query@.len() as int
        }
    }

    /// The two searches have the same settings and the same open or closed
    /// box.
    pub open spec fn same_flags(&self, other: ProcessSearchState) -> bool {
        &&& self.is_enabled == other.is_enabled
        &&& self.is_ignoring_case == other.is_ignoring_case
        &&& self.is_searching_whole_word == other.is_searching_whole_word
        &&& self.is_searching_with_regex == other.is_searching_with_regex
    }

    /// `after` is this search after an edit of its box.
    pub open spec fn is_edited(&self, after: ProcessSearchState, edit: SearchEdit) -> bool {
        &&& after.current_search_query@ == text_after(
            edit,
            self.current_search_query@,
            self.cursor(),
        )
        &&& after.cursor_position == cursor_after(edit, self.current_search_query@, self.cursor())
        &&& after.same_flags(*self)
    }

    /// Edits the text of the search box at the cursor, or moves the cursor.
    pub fn edit(&mut self, edit: SearchEdit)
        ensures
            old(self).is_edited(*final(self), edit),
    {
        let len = self.current_search_query.len();
        let cursor = if self.cursor_position <= len {
            self.cursor_position
        } else {
            len
        };
        match edit {
            SearchEdit::Insert(c) => {
                self.current_search_query.insert(cursor, c);
                let grown = self.current_search_query.len();
                assert(cursor < grown);
                self.cursor_position = cursor + 1;
            },
            SearchEdit::Backspace => {
                if cursor > 0 {
                    self.current_search_query.remove(cursor - 1);
                    self.cursor_position = cursor - 1;
                } else {
                    self.cursor_position = cursor;
                }
            },
            SearchEdit::Delete => {
                if cursor < len {
                    self.current_search_query.remove(cursor);
                }
                self.cursor_position = cursor;
            },
            SearchEdit::CursorLeft => {
                self.cursor_position = if cursor > 0 {
                    cursor - 1
                } else {
                    cursor
                };
            },
            SearchEdit::CursorRight => {
                self.cursor_position = if cursor < len {
                    cursor + 1
                } else {
                    cursor
                };
            },
            SearchEdit::CursorStart => {
                self.cursor_position = 0;
            },
            SearchEdit::CursorEnd => {
                self.cursor_position = len;
            },
            SearchEdit::Clear => {
                self.current_search_query = Vec::new();
                self.cursor_position = 0;
            },
        }
    }
}

/// Whether the matcher lets the row through: by its command line where the
/// widget shows commands, by its name otherwise.
pub open spec fn row_matches(
    matcher: spec_fn(Seq<char>) -> bool,
    row: RowView,
    is_using_command: bool,
) -> bool {
    if is_using_command {
        matcher(row.command)
    } else {
        matcher(row.name)
    }
}

/// The rows that the matcher lets through, in their order.
pub open spec fn matching_rows(
    rows: Seq<RowView>,
    matcher: spec_fn(Seq<char>) -> bool,
    is_using_command: bool,
) -> Seq<RowView> {
    rows.filter(|row: RowView| row_matches(matcher, row, is_using_command))
}

/// `row`, disabled where the matcher does not let it through.
pub open spec fn marked_row(
    row: RowView,
    matcher: spec_fn(Seq<char>) -> bool,
    is_using_command: bool,
) -> RowView {
    RowView { is_disabled_entry: !row_matches(matcher, row, is_using_command), ..row }
}

/// Every row, each disabled where the matcher does not let it through.
pub open spec fn marked_rows(
    rows: Seq<RowView>,
    matcher: spec_fn(Seq<char>) -> bool,
    is_using_command: bool,
) -> Seq<RowView> {
    rows.map_values(|row: RowView| marked_row(row, matcher, is_using_command))
}

/// The table after the filter step. Without a matcher every row passes
/// unchanged. With one, a plain table keeps the rows that it lets through,
/// and a tree keeps every row and disables the others.
pub open spec fn filtered_rows(
    rows: Seq<RowView>,
    matcher: Option<spec_fn(Seq<char>) -> bool>,
    is_using_command: bool,
    is_tree: bool,
) -> Seq<RowView> {
    match matcher {
        None => rows,
        Some(m) => if is_tree {
            marked_rows(rows, m, is_using_command)
        } else {
            matching_rows(rows, m, is_using_command)
        },
    }
}

/// Whether the compiled expression matches the row.
pub fn check(filter: &regex::Regex, row: &ProcessRow, is_using_command: bool) -> (found: bool)
    ensures
        found == row_matches(matcher_of_regex(*filter), row@, is_using_command),
{
    if is_using_command {
        filter.is_match(row.command.as_str())
    } else {
        filter.is_match(row.name.as_str())
    }
}

/// The matcher of an optional compiled expression.
pub open spec fn matcher_of(filter: Option<regex::Regex>) -> Option<spec_fn(Seq<char>) -> bool> {
    match filter {
        Some(regex) => Some(matcher_of_regex(regex)),
        None => None,
    }
}

/// An expression compiled from a pattern lets through what the pattern
/// does.
pub proof fn lemma_compiled_matcher(regex: regex::Regex, pattern: Seq<char>)
    requires
        is_compiled_from(regex, pattern),
    ensures
        matcher_of_regex(regex) == matcher_of_pattern(pattern),
{
    assert(matcher_of_regex(regex) =~= matcher_of_pattern(pattern));
}

/// The filter step of the process table, for a compiled expression,
/// whatever it was built from: `None` stands for a blank or invalid
/// search.
pub fn filter_process_data(
    rows: &Vec<ProcessRow>,
    filter: &Option<regex::Regex>,
    is_using_command: bool,
    is_tree: bool,
) -> (kept: Vec<ProcessRow>)
    ensures
        rows_view(kept@) == filtered_rows(
            rows_view(rows@),
            matcher_of(*filter),
            is_using_command,
            is_tree,
        ),
{
    let mut kept: Vec<ProcessRow> = Vec::new();
    let mut i: usize = 0;
    let ghost all = rows_view(rows@);
    proof {
        reveal(Seq::filter);
        assert(all.take(0) =~= Seq::<RowView>::empty());
        assert(rows_view(kept@) =~= Seq::<RowView>::empty());
        assert(rows_view(kept@) =~= filtered_rows(
            all.take(0),
            matcher_of(*filter),
            is_using_command,
            is_tree,
        ));
    }
    while i < rows.len()
        invariant
            i <= rows.len(),
            all == rows_view(rows@),
            rows_view(kept@) == filtered_rows(
                all.take(i as int),
                matcher_of(*filter),
                is_using_command,
                is_tree,
            ),
        decreases rows.len() - i,
    {
        let ghost before = rows_view(kept@);
        proof {
            reveal(Seq::filter);
            assert(all.take(i as int + 1).drop_last() =~= all.take(i as int));
            assert(all.take(i as int + 1).last() == rows@[i as int]@);
        }
        let mut row = rows[i].duplicate();
        match filter {
            Some(regex) => {
                let found = check(regex, &row, is_using_command);
                if is_tree {
                    row.is_disabled_entry = !found;
                    kept.push(row);
                    proof {
                        assert(rows_view(kept@) =~= before.push(row@));
                        assert(rows_view(kept@) =~= marked_rows(
                            all.take(i as int + 1),
                            matcher_of_regex(*regex),
                            is_using_command,
                        ));
                    }
                } else if found {
                    kept.push(row);
                    proof {
                        assert(rows_view(kept@) =~= before.push(row@));
                    }
                }
            },
            None => {
                kept.push(row);
                proof {
                    assert(rows_view(kept@) =~= before.push(row@));
                    assert(rows_view(kept@) =~= all.take(i as int + 1));
                }
            },
        }
        i = i + 1;
    }
    proof {
        assert(all.take(rows.len() as int) =~= all);
    }
    kept
}

/// A blank search filters nothing: in a plain table the filtered rows are
/// the rows that came in, and in a tree no row is disabled.
pub proof fn lemma_blank_search_keeps_all(
    search: ProcessSearchState,
    rows: Seq<RowView>,
    is_using_command: bool,
    is_tree: bool,
)
    requires
        search.is_blank(),
    ensures
        filtered_rows(rows, search.active_matcher(), is_using_command, is_tree) == rows,
{
}

} // verus!
