//! Launching an application, or raising its window when it already runs: the
//! reading of `.desktop` entries, the choice between the two, the command line
//! and the window script that carry it out, and the icon that the entry names.
//!
//! Launching goes through `systemd-run --user`, so that the application runs
//! outside the daemon's own sandbox and outlives it.

use vstd::prelude::*;

use crate::path;
use crate::text;

verus! {

// --- Exec lines ------------------------------------------------------------

/// The state of the reading of an `Exec` line.
#[verifier::ext_equal]
pub struct Scan {
    /// The arguments that are complete.
    pub args: Seq<Seq<char>>,
    /// The argument being read.
    pub current: Seq<char>,
    /// Between double quotes.
    pub quoted: bool,
    /// Whether `current` is an argument, were it to end here.
    pub started: bool,
    /// Behind a `%` whose code is still to come.
    pub percent: bool,
}

/// One more character of an `Exec` line.
pub open spec fn scan_char(st: Scan, c: char) -> Scan {
    if st.percent {
        // A field code is dropped; `%%` is a percent sign.
        if c == '%' {
            Scan { current: st.current.push('%'), started: true, percent: false, ..st }
        } else {
            Scan { percent: false, ..st }
        }
    } else if c == '"' {
        Scan { quoted: !st.quoted, started: true, ..st }
    } else if c == '%' {
        Scan { percent: true, ..st }
    } else if text::is_space(c) && !st.quoted {
        if st.started {
            Scan {
                args: st.args.push(st.current),
                current: Seq::<char>::empty(),
                started: false,
                ..st
            }
        } else {
            st
        }
    } else {
        Scan { current: st.current.push(c), started: true, ..st }
    }
}

/// The state behind the characters of `s`.
pub open spec fn scan(s: Seq<char>) -> Scan
    decreases s.len(),
{
    if s.len() == 0 {
        Scan {
            args: Seq::<Seq<char>>::empty(),
            current: Seq::<char>::empty(),
            quoted: false,
            started: false,
            percent: false,
        }
    } else {
        scan_char(scan(s.drop_last()), s.last())
    }
}

/// The arguments of an `Exec` line.
pub open spec fn argv(s: Seq<char>) -> Seq<Seq<char>> {
    let st = scan(s);
    if st.started {
        st.args.push(st.current)
    } else {
        st.args
    }
}

/// Turn a `.desktop` `Exec` value into an argument vector: strip the field codes
/// (`%u`, `%F`, ...), unescape `%%`, and split on whitespace honoring simple
/// double-quoting.
pub fn exec_argv(exec: &str) -> (r: Vec<String>)
    ensures
        text::views(r@) == argv(exec@),
{
    let exec = text::chars(exec);
    let mut args: Vec<String> = Vec::new();
    let mut current: Vec<char> = Vec::new();
    let mut in_quotes = false;
    let mut started = false;
    let mut percent = false;
    let mut i: usize = 0;
    assert(exec@.take(0) =~= Seq::<char>::empty());
    assert(text::views(args@) =~= Seq::<Seq<char>>::empty());
    while i < exec.len()
        invariant
            i <= exec.len(),
            scan(exec@.take(i as int)) == (Scan {
                args: text::views(args@),
                current: current@,
                quoted: in_quotes,
                started,
                percent,
            }),
        decreases exec.len() - i,
    {
        let c = exec[i];
        let ghost st = scan(exec@.take(i as int));
        assert(exec@.take(i + 1).drop_last() =~= exec@.take(i as int));
        assert(exec@.take(i + 1).last() == c);
        if percent {
            percent = false;
            if c == '%' {
                current.push('%');
                started = true;
            }
        } else if c == '"' {
            in_quotes = !in_quotes;
            started = true;
        } else if c == '%' {
            percent = true;
        } else if text::space(c) && !in_quotes {
            if started {
                let ghost old_args = args@;
                args.push(text::string(&current));
                assert(text::views(args@) =~= text::views(old_args).push(current@));
                current = Vec::new();
                started = false;
            }
        } else {
            current.push(c);
            started = true;
        }
        assert(scan(exec@.take(i + 1)) =~= scan_char(st, c));
        i = i + 1;
    }
    assert(exec@.take(exec@.len() as int) =~= exec@);
    if started {
        let ghost old_args = args@;
        args.push(text::string(&current));
        assert(text::views(args@) =~= text::views(old_args).push(current@));
    }
    args
}

/// Without quotes and percent signs an `Exec` line is its words.
pub proof fn plain_exec_is_its_words(s: Seq<char>)
    requires
        !s.contains('"'),
        !s.contains('%'),
    ensures
        argv(s) == text::words(s),
{
    plain_scan(s);
    let pieces = text::split_space(s);
    assert(pieces =~= pieces.drop_last().push(pieces.last()));
    text::kept_push(pieces.drop_last(), pieces.last());
}

/// The state behind plain text: its words but the last, and the last.
proof fn plain_scan(s: Seq<char>)
    requires
        !s.contains('"'),
        !s.contains('%'),
    ensures
        text::split_space(s).len() > 0,
        scan(s).args == text::kept(text::split_space(s).drop_last()),
        scan(s).current == text::split_space(s).last(),
        scan(s).started == (scan(s).current.len() > 0),
        !scan(s).quoted,
        !scan(s).percent,
    decreases s.len(),
{
    reveal(Seq::filter);
    if s.len() == 0 {
        assert(text::split_space(s).drop_last() =~= Seq::<Seq<char>>::empty());
        assert(scan(s).args =~= text::kept(text::split_space(s).drop_last()));
    } else {
        let front = s.drop_last();
        let c = s.last();
        assert(s.contains(c));
        assert forall|x: char| front.contains(x) implies s.contains(x) by {
            let k = choose|k: int| 0 <= k < front.len() && front[k] == x;
            assert(s[k] == x);
        }
        plain_scan(front);
        let before = text::split_space(front);
        let after = text::split_space(s);
        if text::is_space(c) {
            assert(before =~= before.drop_last().push(before.last()));
            text::kept_push(before.drop_last(), before.last());
            assert(after.drop_last() =~= before);
        } else {
            assert(after.drop_last() =~= before.drop_last());
        }
    }
}

/// Reading goes on from the state that was reached, however it was reached.
proof fn scan_continues(a: Seq<char>, b: Seq<char>, more: Seq<char>)
    requires
        scan(a) == scan(b),
    ensures
        scan(a + more) == scan(b + more),
    decreases more.len(),
{
    if more.len() == 0 {
        assert(a + more =~= a);
        assert(b + more =~= b);
    } else {
        scan_continues(a, b, more.drop_last());
        assert((a + more).drop_last() =~= a + more.drop_last());
        assert((b + more).drop_last() =~= b + more.drop_last());
    }
}

/// A field code leaves no trace in the arguments, wherever it stands (other than
/// right behind a `%`).
pub proof fn field_codes_vanish(before: Seq<char>, code: char, after: Seq<char>)
    requires
        code != '%',
        !scan(before).percent,
    ensures
        argv(before + seq!['%', code] + after) == argv(before + after),
{
    let with = before + seq!['%', code];
    assert(with.drop_last() =~= before.push('%'));
    assert(before.push('%').drop_last() =~= before);
    assert(scan(before.push('%')) == scan_char(scan(before), '%'));
    assert(scan(with) =~= scan(before));
    scan_continues(with, before, after);
}

/// `%%` puts one percent sign into the argument being read.
pub proof fn double_percent_is_one(before: Seq<char>)
    requires
        !scan(before).percent,
    ensures
        scan(before + seq!['%', '%']).args == scan(before).args,
        scan(before + seq!['%', '%']).current == scan(before).current.push('%'),
        scan(before + seq!['%', '%']).started,
        !scan(before + seq!['%', '%']).percent,
        scan(before + seq!['%', '%']).quoted == scan(before).quoted,
{
    let with = before + seq!['%', '%'];
    assert(with.drop_last() =~= before.push('%'));
    assert(before.push('%').drop_last() =~= before);
    assert(scan(before.push('%')) == scan_char(scan(before), '%'));
}

/// A text between double quotes is one argument, white space and all.
pub proof fn quoted_text_is_one_argument(s: Seq<char>)
    requires
        !s.contains('"'),
        !s.contains('%'),
    ensures
        argv(seq!['"'] + s + seq!['"']) == seq![s],
{
    let open = seq!['"'];
    quoted_scan(s);
    let whole = open + s + seq!['"'];
    assert(whole.drop_last() =~= open + s);
    assert(argv(whole) =~= seq![s]);
}

proof fn quoted_scan(s: Seq<char>)
    requires
        !s.contains('"'),
        !s.contains('%'),
    ensures
        scan(seq!['"'] + s) == (Scan {
            args: Seq::<Seq<char>>::empty(),
            current: s,
            quoted: true,
            started: true,
            percent: false,
        }),
    decreases s.len(),
{
    let open = seq!['"'];
    if s.len() == 0 {
        assert(open + s =~= open);
        assert(open.drop_last() =~= Seq::<char>::empty());
        assert(scan(open) == scan_char(scan(Seq::<char>::empty()), '"'));
        assert(s =~= Seq::<char>::empty());
    } else {
        let front = s.drop_last();
        assert(s.contains(s.last()));
        assert forall|x: char| front.contains(x) implies s.contains(x) by {
            let k = choose|k: int| 0 <= k < front.len() && front[k] == x;
            assert(s[k] == x);
        }
        quoted_scan(front);
        assert((open + s).drop_last() =~= open + front);
        assert(front.push(s.last()) =~= s);
    }
}

// --- Desktop entries -------------------------------------------------------

/// The main group of a `.desktop` file: its keys, each with its first value.
#[derive(Debug, Clone)]
pub struct DesktopEntry {
    pub pairs: Vec<(String, String)>,
}

/// The value of the first pair with the given key.
pub open spec fn value_of(pairs: Seq<(Seq<char>, Seq<char>)>, key: Seq<char>) -> Option<Seq<char>>
    decreases pairs.len(),
{
    if pairs.len() == 0 {
        None
    } else if pairs[0].0 == key {
        Some(pairs[0].1)
    } else {
        value_of(pairs.drop_first(), key)
    }
}

/// The value of `key` in an entry that may be missing.
pub open spec fn entry_value(entry: Option<&DesktopEntry>, key: Seq<char>) -> Option<Seq<char>> {
    match entry {
        Some(e) => value_of(e@, key),
        None => None,
    }
}

/// A pair more, where its key is new.
pub open spec fn with_pair(
    pairs: Seq<(Seq<char>, Seq<char>)>,
    key: Seq<char>,
    value: Seq<char>,
) -> Seq<(Seq<char>, Seq<char>)> {
    if value_of(pairs, key) is Some {
        pairs
    } else {
        pairs.push((key, value))
    }
}

impl View for DesktopEntry {
    type V = Seq<(Seq<char>, Seq<char>)>;

    open spec fn view(&self) -> Seq<(Seq<char>, Seq<char>)> {
        self.pairs@.map_values(|p: (String, String)| (p.0@, p.1@))
    }
}

impl DesktopEntry {
    /// An entry without keys.
    pub fn new() -> (r: DesktopEntry)
        ensures
            r@ == Seq::<(Seq<char>, Seq<char>)>::empty(),
    {
        let r = DesktopEntry { pairs: Vec::new() };
        assert(r@ =~= Seq::<(Seq<char>, Seq<char>)>::empty());
        r
    }

    /// The value of `key`.
    pub fn get(&self, key: &str) -> (r: Option<&String>)
        ensures
            match r {
                Some(v) => value_of(self@, key@) == Some(v@),
                None => value_of(self@, key@) is None,
            },
    {
        let wanted = text::chars(key);
        let mut i: usize = 0;
        assert(self@.skip(0) =~= self@);
        while i < self.pairs.len()
            invariant
                wanted@ == key@,
                i <= self.pairs.len(),
                value_of(self@.skip(i as int), key@) == value_of(self@, key@),
            decreases self.pairs.len() - i,
        {
            let name = text::chars(self.pairs[i].0.as_str());
            assert(self@.skip(i as int)[0] == self@[i as int]);
            if text::same_chars(&name, &wanted) {
                return Some(&self.pairs[i].1);
            }
            assert(self@.skip(i as int).drop_first() =~= self@.skip(i + 1));
            i = i + 1;
        }
        None
    }

    /// Add a key, unless it has a value already.
    pub fn insert(&mut self, key: String, value: String)
        ensures
            final(self)@ == with_pair(old(self)@, key@, value@),
    {
        if self.get(key.as_str()).is_none() {
            let ghost before = self@;
            let ghost (k, v) = (key@, value@);
            self.pairs.push((key, value));
            assert(self@ =~= before.push((k, v)));
        }
    }
}

/// Whether a trimmed line is a group header.
pub open spec fn is_header(line: Seq<char>) -> bool {
    line.len() > 0 && line[0] == '[' && line.last() == ']'
}

/// The lines before the first group header.
pub open spec fn up_to_header(lines: Seq<Seq<char>>) -> Seq<Seq<char>>
    decreases lines.len(),
{
    if lines.len() == 0 || is_header(text::trimmed(lines[0])) {
        Seq::<Seq<char>>::empty()
    } else {
        seq![lines[0]] + up_to_header(lines.drop_first())
    }
}

/// The lines of the main group: those behind its header, up to the next header.
pub open spec fn main_group(lines: Seq<Seq<char>>) -> Seq<Seq<char>>
    decreases lines.len(),
{
    if lines.len() == 0 {
        Seq::<Seq<char>>::empty()
    } else if text::trimmed(lines[0]) == "[Desktop Entry]"@ {
        up_to_header(lines.drop_first())
    } else {
        main_group(lines.drop_first())
    }
}

/// The keys and values that lines of a group define.
pub open spec fn pairs_in(lines: Seq<Seq<char>>) -> Seq<(Seq<char>, Seq<char>)>
    decreases lines.len(),
{
    if lines.len() == 0 {
        Seq::<(Seq<char>, Seq<char>)>::empty()
    } else {
        let before = pairs_in(lines.drop_last());
        let line = text::trimmed(lines.last());
        if line.len() == 0 || line[0] == '#' {
            before
        } else {
            match text::split_once_at(line, '=') {
                Some((key, value)) => with_pair(before, text::trimmed(key), text::trimmed(value)),
                None => before,
            }
        }
    }
}

/// The keys and values that the given lines define in the main group.
pub open spec fn main_pairs(lines: Seq<Seq<char>>) -> Seq<(Seq<char>, Seq<char>)> {
    pairs_in(main_group(lines))
}

/// Parse the `[Desktop Entry]` group of a `.desktop` file. Stops at the next group
/// header; comments are skipped, and the first value of a key counts.
pub fn parse_desktop_entry(content: &str) -> (r: DesktopEntry)
    ensures
        r@ == main_pairs(text::lines_of(content@)),
{
    let content = text::chars(content);
    let all = text::lines(&content);
    let ghost lines = text::lines_of(content@);
    let mut entry = DesktopEntry::new();
    let mut i: usize = 0;
    let mut in_entry = false;
    assert(lines.skip(0) =~= lines);
    while i < all.len() && !in_entry
        invariant
            lines == text::chars_views(all@),
            i <= all.len(),
            main_group(lines) == (if in_entry {
                up_to_header(lines.skip(i as int))
            } else {
                main_group(lines.skip(i as int))
            }),
        decreases all.len() - i,
    {
        assert(lines.skip(i as int)[0] == all@[i as int]@);
        assert(lines.skip(i as int).drop_first() =~= lines.skip(i + 1));
        let line = text::trim(&all[i]);
        in_entry = text::same(&line, "[Desktop Entry]");
        i = i + 1;
    }
    let mut open = in_entry;
    let ghost mut read = Seq::<Seq<char>>::empty();
    assert(lines.skip(lines.len() as int) =~= Seq::<Seq<char>>::empty());
    assert(main_group(lines) =~= read + (if open {
        up_to_header(lines.skip(i as int))
    } else {
        Seq::<Seq<char>>::empty()
    }));
    while i < all.len() && open
        invariant
            lines == text::chars_views(all@),
            i <= all.len(),
            main_group(lines) == read + (if open {
                up_to_header(lines.skip(i as int))
            } else {
                Seq::<Seq<char>>::empty()
            }),
            entry@ == pairs_in(read),
        decreases all.len() - i,
    {
        assert(lines.skip(i as int)[0] == all@[i as int]@);
        assert(lines.skip(i as int).drop_first() =~= lines.skip(i + 1));
        let line = text::trim(&all[i]);
        if line.len() > 0 && line[0] == '[' && line[line.len() - 1] == ']' {
            open = false;
        } else {
            let ghost more = read.push(all@[i as int]@);
            assert(more.drop_last() =~= read);
            assert(read + up_to_header(lines.skip(i as int)) =~= more + up_to_header(
                lines.skip(i + 1),
            ));
            if line.len() > 0 && line[0] != '#' {
                if let Some((key, value)) = text::split_once(&line, '=') {
                    let key = text::trim(&key);
                    let value = text::trim(&value);
                    entry.insert(text::string(&key), text::string(&value));
                }
            }
            proof {
                read = more;
            }
        }
        i = i + 1;
    }
    assert(lines.skip(lines.len() as int) =~= Seq::<Seq<char>>::empty());
    assert(main_group(lines) =~= read);
    entry
}

// --- Window classes --------------------------------------------------------

/// The characters that a window class keeps.
pub open spec fn class_char() -> spec_fn(char) -> bool {
    |c: char|
        ('a' <= c <= 'z') || ('A' <= c <= 'Z') || ('0' <= c <= '9') || c == '.' || c == '_' || c
            == '-' || c == '+'
}

/// A window class as it is matched: the characters that it keeps, in lower case.
pub open spec fn sanitized(s: Seq<char>) -> Seq<char> {
    text::lowered(s.filter(class_char()))
}

/// Keep only characters that safely appear in a window class, lowercased, so a
/// class name can be embedded in the generated window script without escaping.
pub fn sanitize_class(s: &str) -> (r: String)
    ensures
        r@ == sanitized(s@),
{
    let s = text::chars(s);
    let mut kept: Vec<char> = Vec::new();
    let mut i: usize = 0;
    proof {
        reveal(Seq::filter);
        assert(s@.take(0).filter(class_char()) =~= Seq::<char>::empty());
    }
    while i < s.len()
        invariant
            i <= s.len(),
            kept@ == s@.take(i as int).filter(class_char()),
        decreases s.len() - i,
    {
        let c = s[i];
        proof {
            reveal(Seq::filter);
            assert(s@.take(i + 1).drop_last() =~= s@.take(i as int));
            assert(s@.take(i + 1).last() == c);
        }
        if ('a' <= c && c <= 'z') || ('A' <= c && c <= 'Z') || ('0' <= c && c <= '9') || c == '.' || c
            == '_' || c == '-' || c == '+' {
            assert(class_char()(c));
            kept.push(c);
        } else {
            assert(!class_char()(c));
        }
        i = i + 1;
    }
    assert(s@.take(s@.len() as int) =~= s@);
    text::string(&text::to_lower(&kept))
}

/// A candidate more, where it is not empty and not yet there.
pub open spec fn with_class(out: Seq<Seq<char>>, s: Seq<char>) -> Seq<Seq<char>> {
    let c = sanitized(s);
    if c.len() == 0 || out.contains(c) {
        out
    } else {
        out.push(c)
    }
}

/// A candidate more, where there is one.
pub open spec fn with_optional_class(out: Seq<Seq<char>>, s: Option<Seq<char>>) -> Seq<Seq<char>> {
    match s {
        Some(s) => with_class(out, s),
        None => out,
    }
}

/// The window classes that a running instance may have, in order: the override,
/// the application id, the id without `.desktop`, the entry's `StartupWMClass`,
/// and the name of its program.
pub open spec fn class_candidates(
    app: Seq<char>,
    wm_class: Option<Seq<char>>,
    exec_name: Seq<char>,
    window_class: Option<Seq<char>>,
) -> Seq<Seq<char>> {
    let first = with_optional_class(Seq::<Seq<char>>::empty(), window_class);
    let id = with_class(first, app);
    let stem = with_class(id, text::without_suffixes(app, ".desktop"@));
    with_class(with_optional_class(stem, wm_class), exec_name)
}

/// A candidate more, where it is not empty and not yet there.
fn push_class(out: &mut Vec<String>, s: &str)
    ensures
        text::views(final(out)@) == with_class(text::views(old(out)@), s@),
{
    let class = sanitize_class(s);
    if class.as_str().is_empty() {
        return;
    }
    let mut i: usize = 0;
    while i < out.len()
        invariant
            i <= out.len(),
            out@ == old(out)@,
            class@ == sanitized(s@),
            forall|j: int| 0 <= j < i ==> text::views(out@)[j] != class@,
        decreases out.len() - i,
    {
        if out[i] == class {
            assert(text::views(out@)[i as int] == class@);
            return;
        }
        i = i + 1;
    }
    let ghost c = class@;
    assert(!text::views(out@).contains(c));
    out.push(class);
    assert(text::views(out@) =~= text::views(old(out)@).push(c));
}

/// The contents of an optional text.
pub open spec fn opt_view(s: Option<&str>) -> Option<Seq<char>> {
    match s {
        Some(s) => Some(s@),
        None => None,
    }
}

/// Window-class candidates to match a running window against (case-insensitive,
/// sanitized, deduped): explicit override + app id + `StartupWMClass` + exec.
pub fn window_class_candidates(
    app: &str,
    entry: Option<&DesktopEntry>,
    exec_name: &str,
    window_class: Option<&str>,
) -> (r: Vec<String>)
    ensures
        text::views(r@) == class_candidates(
            app@,
            entry_value(entry, "StartupWMClass"@),
            exec_name@,
            opt_view(window_class),
        ),
{
    let mut out: Vec<String> = Vec::new();
    assert(text::views(out@) =~= Seq::<Seq<char>>::empty());
    if let Some(class) = window_class {
        push_class(&mut out, class);
    }
    push_class(&mut out, app);
    let stem = text::string(&text::trim_suffixes(&text::chars(app), ".desktop"));
    push_class(&mut out, stem.as_str());
    if let Some(e) = entry {
        if let Some(class) = e.get("StartupWMClass") {
            push_class(&mut out, class.as_str());
        }
    }
    push_class(&mut out, exec_name);
    out
}

/// Whether a text holds nothing but lower-case letters, digits, and `.`, `_`,
/// `-`, `+`.
pub open spec fn is_class(s: Seq<char>) -> bool {
    forall|i: int|
        0 <= i < s.len() ==> {
            let c = #[trigger] s[i];
            ('a' <= c <= 'z') || ('0' <= c <= '9') || c == '.' || c == '_' || c == '-' || c == '+'
        }
}

/// A sanitized class holds no character that could end a quoted string.
pub proof fn sanitized_is_class(s: Seq<char>)
    ensures
        is_class(sanitized(s)),
{
    let f = s.filter(class_char());
    assert forall|i: int| 0 <= i < sanitized(s).len() implies {
        let c = #[trigger] sanitized(s)[i];
        ('a' <= c <= 'z') || ('0' <= c <= '9') || c == '.' || c == '_' || c == '-' || c == '+'
    } by {
        s.lemma_filter_pred(class_char(), i);
        assert(sanitized(s)[i] == text::lower(f[i]));
    }
}

/// The candidates are pairwise distinct, none is empty, and none needs escaping.
pub open spec fn clean_classes(out: Seq<Seq<char>>) -> bool {
    &&& out.no_duplicates()
    &&& forall|i: int| 0 <= i < out.len() ==> is_class(#[trigger] out[i]) && out[i].len() > 0
}

proof fn with_class_keeps_clean(out: Seq<Seq<char>>, s: Seq<char>)
    requires
        clean_classes(out),
    ensures
        clean_classes(with_class(out, s)),
{
    sanitized_is_class(s);
}

/// Whatever the names, the candidates are distinct, non-empty, and safe to embed
/// in a script between quotes; an explicit override comes first.
pub proof fn candidates_are_clean(
    app: Seq<char>,
    wm_class: Option<Seq<char>>,
    exec_name: Seq<char>,
    window_class: Option<Seq<char>>,
)
    ensures
        clean_classes(class_candidates(app, wm_class, exec_name, window_class)),
        window_class is Some && sanitized(window_class->0).len() > 0 ==> {
            let c = class_candidates(app, wm_class, exec_name, window_class);
            c.len() > 0 && c[0] == sanitized(window_class->0)
        },
{
    let none = Seq::<Seq<char>>::empty();
    let first = with_optional_class(none, window_class);
    if let Some(w) = window_class {
        with_class_keeps_clean(none, w);
    }
    let id = with_class(first, app);
    with_class_keeps_clean(first, app);
    let stem = with_class(id, text::without_suffixes(app, ".desktop"@));
    with_class_keeps_clean(id, text::without_suffixes(app, ".desktop"@));
    let wm = with_optional_class(stem, wm_class);
    if let Some(w) = wm_class {
        with_class_keeps_clean(stem, w);
    }
    with_class_keeps_clean(wm, exec_name);
}

// --- Raising a window ------------------------------------------------------

/// The window script up to its targets.
pub const RAISE_HEAD: &'static str = "const targets = [";

/// The window script behind its targets: raise the first window whose class is
/// one of them. Plasma 6 has `windowList`/`activeWindow`, Plasma 5
/// `clientList`/`activeClient`.
pub const RAISE_TAIL: &'static str = "];
const wins = workspace.windowList ? workspace.windowList() : workspace.clientList();
for (const w of wins) {
    const cls = (w.resourceClass || \"\").toString().toLowerCase();
    if (targets.indexOf(cls) !== -1) {
        w.minimized = false;
        if (\"activeWindow\" in workspace) { workspace.activeWindow = w; }
        else { workspace.activeClient = w; }
        break;
    }
}
";

/// The texts, each between double quotes, with commas in between.
pub open spec fn quoted_list(items: Seq<Seq<char>>) -> Seq<char>
    decreases items.len(),
{
    if items.len() == 0 {
        Seq::<char>::empty()
    } else if items.len() == 1 {
        "\""@ + items[0] + "\""@
    } else {
        quoted_list(items.drop_last()) + ", "@ + ("\""@ + items.last() + "\""@)
    }
}

/// The script that asks KWin to raise the first window whose class is one of
/// `candidates`.
pub fn raise_script(candidates: &Vec<String>) -> (r: String)
    ensures
        r@ == RAISE_HEAD@ + quoted_list(text::views(candidates@)) + RAISE_TAIL@,
{
    let mut out = text::chars(RAISE_HEAD);
    let ghost all = text::views(candidates@);
    let mut i: usize = 0;
    assert(out@ =~= RAISE_HEAD@ + quoted_list(all.take(0)));
    while i < candidates.len()
        invariant
            all == text::views(candidates@),
            i <= candidates.len(),
            out@ == RAISE_HEAD@ + quoted_list(all.take(i as int)),
        decreases candidates.len() - i,
    {
        let ghost before = out@;
        if i > 0 {
            text::append(&mut out, ", ");
        }
        text::append(&mut out, "\"");
        text::append(&mut out, candidates[i].as_str());
        text::append(&mut out, "\"");
        proof {
            assert(all.take(i + 1).drop_last() =~= all.take(i as int));
            assert(all.take(i + 1).last() == candidates@[i as int]@);
            if i == 0 {
                assert(all.take(0) =~= Seq::<Seq<char>>::empty());
                assert(out@ =~= RAISE_HEAD@ + quoted_list(all.take(1)));
            } else {
                assert(out@ =~= before + (", "@ + ("\""@ + all[i as int] + "\""@)));
                assert(out@ =~= RAISE_HEAD@ + quoted_list(all.take(i + 1)));
            }
        }
        i = i + 1;
    }
    assert(all.take(all.len() as int) =~= all);
    text::append(&mut out, RAISE_TAIL);
    text::string(&out)
}

/// What raising a window takes: the script to run, and nothing where there is no
/// class to match, which counts as raised.
pub fn raise_plan(classes: &Vec<String>) -> (r: Option<String>)
    ensures
        match r {
            None => classes@.len() == 0,
            Some(s) => classes@.len() > 0 && s@ == RAISE_HEAD@ + quoted_list(text::views(classes@))
                + RAISE_TAIL@,
        },
{
    if classes.len() == 0 {
        None
    } else {
        Some(raise_script(classes))
    }
}

// --- Launch or raise -------------------------------------------------------

/// `std::str::from_utf8` gives the text that the bytes encode where they are
/// valid UTF-8, and an error where they are not.
#[verifier::external_body]
fn from_utf8(bytes: &[u8]) -> (r: Option<&str>)
    ensures
        match r {
            Some(s) => vstd::utf8::valid_utf8(bytes@) && s@ == vstd::utf8::decode_utf8(bytes@),
            None => !vstd::utf8::valid_utf8(bytes@),
        },
{
    std::str::from_utf8(bytes).ok()
}

/// A process as `/proc` shows it.
#[derive(Debug, Clone)]
pub struct Process {
    /// The name of its directory.
    pub dir: String,
    /// Its arguments, each ended by a zero byte.
    pub cmdline: Vec<u8>,
}

/// The bytes before the first zero.
pub open spec fn before_zero(bytes: Seq<u8>) -> Seq<u8>
    decreases bytes.len(),
{
    if bytes.len() == 0 || bytes[0] == 0 {
        Seq::<u8>::empty()
    } else {
        seq![bytes[0]] + before_zero(bytes.drop_first())
    }
}

/// Whether a process is an instance of the program `exec_name`, by the file name
/// of its first argument.
pub open spec fn runs(p: Process, exec_name: Seq<char>) -> bool {
    let arg0 = before_zero(p.cmdline@);
    &&& text::all_digits(p.dir@)
    &&& vstd::utf8::valid_utf8(arg0)
    &&& path::name_of(vstd::utf8::decode_utf8(arg0)) == Some(exec_name)
}

/// Whether a text is digits only.
fn only_digits(s: &str) -> (r: bool)
    ensures
        r == text::all_digits(s@),
{
    let v = text::chars(s);
    let mut i: usize = 0;
    while i < v.len()
        invariant
            v@ == s@,
            i <= v.len(),
            forall|j: int| 0 <= j < i ==> text::is_digit(v@[j]),
        decreases v.len() - i,
    {
        if !text::digit(v[i]) {
            assert(!text::is_digit(s@[i as int]));
            return false;
        }
        i = i + 1;
    }
    true
}

/// The first argument of a command line.
fn first_argument(cmdline: &Vec<u8>) -> (r: Vec<u8>)
    ensures
        r@ == before_zero(cmdline@),
{
    let mut out: Vec<u8> = Vec::new();
    let mut i: usize = 0;
    assert(cmdline@.skip(0) =~= cmdline@);
    assert(out@ + before_zero(cmdline@.skip(0)) =~= before_zero(cmdline@));
    while i < cmdline.len() && cmdline[i] != 0
        invariant
            i <= cmdline.len(),
            out@ + before_zero(cmdline@.skip(i as int)) == before_zero(cmdline@),
        decreases cmdline.len() - i,
    {
        let ghost before = out@;
        out.push(cmdline[i]);
        assert(cmdline@.skip(i as int).drop_first() =~= cmdline@.skip(i + 1));
        assert(out@ + before_zero(cmdline@.skip(i + 1)) =~= before + before_zero(
            cmdline@.skip(i as int),
        ));
        i = i + 1;
    }
    assert(out@ + before_zero(cmdline@.skip(i as int)) =~= out@);
    out
}

/// Is one of the processes an instance of `exec_name` (by the file name of its
/// first argument)?
pub fn is_running(exec_name: &str, processes: &Vec<Process>) -> (r: bool)
    ensures
        r == exists|i: int| 0 <= i < processes.len() && runs(#[trigger] processes@[i], exec_name@),
{
    let mut i: usize = 0;
    while i < processes.len()
        invariant
            i <= processes.len(),
            forall|j: int| 0 <= j < i ==> !runs(#[trigger] processes@[j], exec_name@),
        decreases processes.len() - i,
    {
        let p = &processes[i];
        if only_digits(p.dir.as_str()) {
            let arg0 = first_argument(&p.cmdline);
            if let Some(arg0) = from_utf8(arg0.as_slice()) {
                if let Some(name) = path::file_name(arg0) {
                    if text::same(&name, exec_name) {
                        assert(runs(processes@[i as int], exec_name@));
                        return true;
                    }
                }
            }
        }
        assert(!runs(processes@[i as int], exec_name@));
        i = i + 1;
    }
    false
}

/// The name of the program that an entry runs: the file name of the first
/// argument of its `Exec` line, or `app` where there is none.
pub open spec fn program_name(app: Seq<char>, exec: Option<Seq<char>>) -> Seq<char> {
    match exec {
        Some(exec) => if argv(exec).len() > 0 {
            match path::name_of(argv(exec)[0]) {
                Some(name) => name,
                None => app,
            }
        } else {
            app
        },
        None => app,
    }
}

/// The name of the program that an entry runs.
pub fn exec_name(app: &str, entry: Option<&DesktopEntry>) -> (r: String)
    ensures
        r@ == program_name(app@, entry_value(entry, "Exec"@)),
{
    if let Some(e) = entry {
        if let Some(exec) = e.get("Exec") {
            let args = exec_argv(exec.as_str());
            assert(text::views(args@).len() == args@.len());
            if args.len() > 0 {
                assert(text::views(args@)[0] == args@[0]@);
                if let Some(name) = path::file_name(args[0].as_str()) {
                    return text::string(&name);
                }
            }
        }
    }
    app.to_string()
}

/// What a press of a launch key asks for.
#[derive(Debug, Clone)]
pub enum LaunchStep {
    /// Raise a window of one of the classes; where that fails, launch.
    Raise(Vec<String>),
    /// Start the application.
    Launch,
}

/// Launch the app, or, if it's already running, raise its existing window instead
/// of starting a second copy. The decision is by a process check.
pub fn launch_or_raise(
    app: &str,
    entry: Option<&DesktopEntry>,
    window_class: Option<&str>,
    processes: &Vec<Process>,
) -> (r: LaunchStep)
    ensures
        ({
            let name = program_name(app@, entry_value(entry, "Exec"@));
            let running = exists|i: int|
                0 <= i < processes.len() && runs(#[trigger] processes@[i], name);
            match r {
                LaunchStep::Raise(classes) => running && text::views(classes@) == class_candidates(
                    app@,
                    entry_value(entry, "StartupWMClass"@),
                    name,
                    opt_view(window_class),
                ),
                LaunchStep::Launch => !running,
            }
        }),
{
    let name = exec_name(app, entry);
    if is_running(name.as_str(), processes) {
        LaunchStep::Raise(window_class_candidates(app, entry, name.as_str(), window_class))
    } else {
        LaunchStep::Launch
    }
}

/// What is left to do once raising was tried: nothing where it worked; else
/// launch, so the button still does something useful.
pub fn after_raise(raised: bool) -> (r: Option<LaunchStep>)
    ensures
        match r {
            None => raised,
            Some(step) => !raised && step == LaunchStep::Launch,
        },
{
    if raised {
        None
    } else {
        Some(LaunchStep::Launch)
    }
}

/// Why an application cannot be launched.
#[derive(Debug, Clone, Copy, PartialEq, Eq, Structural)]
pub enum LaunchError {
    /// No `.desktop` entry was found.
    NoEntry,
    /// The entry has no `Exec` line.
    NoExec,
    /// The `Exec` line is empty after removing field codes.
    EmptyExec,
}

/// The environment variables forwarded to launched apps, so GUI programs find
/// the display and the session bus even if the user manager's environment is
/// sparse.
pub open spec fn forwarded() -> Seq<Seq<char>> {
    seq![
        "WAYLAND_DISPLAY"@,
        "DISPLAY"@,
        "XDG_CURRENT_DESKTOP"@,
        "XDG_SESSION_TYPE"@,
        "DBUS_SESSION_BUS_ADDRESS"@,
        "XDG_RUNTIME_DIR"@,
    ]
}

/// The environment variables forwarded to launched apps.
pub fn forward_env() -> (r: Vec<String>)
    ensures
        text::views(r@) == forwarded(),
{
    let mut out: Vec<String> = Vec::new();
    out.push("WAYLAND_DISPLAY".to_string());
    out.push("DISPLAY".to_string());
    out.push("XDG_CURRENT_DESKTOP".to_string());
    out.push("XDG_SESSION_TYPE".to_string());
    out.push("DBUS_SESSION_BUS_ADDRESS".to_string());
    out.push("XDG_RUNTIME_DIR".to_string());
    assert(text::views(out@) =~= forwarded());
    out
}

/// The options that set the given variables.
pub open spec fn setenv_options(env: Seq<(String, String)>) -> Seq<Seq<char>> {
    env.map_values(|e: (String, String)| "--setenv="@ + e.0@ + "="@ + e.1@)
}

/// The arguments of `systemd-run` that start `args` for `app`.
pub open spec fn systemd_run(
    app: Seq<char>,
    env: Seq<(String, String)>,
    args: Seq<Seq<char>>,
) -> Seq<Seq<char>> {
    seq!["--user"@, "--collect"@, "--quiet"@, "--description=sd_rust launch: "@ + app]
        + setenv_options(env) + seq!["--"@] + args
}

/// The arguments of `systemd-run` that launch the application `app` with the
/// given entry. `env` holds the forwarded variables that are set.
pub fn launch(app: &str, entry: Option<&DesktopEntry>, env: &Vec<(String, String)>) -> (r: Result<
    Vec<String>,
    LaunchError,
>)
    ensures
        match r {
            Ok(args) => entry_value(entry, "Exec"@) matches Some(exec) && argv(exec).len() > 0
                && text::views(args@) == systemd_run(app@, env@, argv(exec)),
            Err(LaunchError::NoEntry) => entry is None,
            Err(LaunchError::NoExec) => entry is Some && entry_value(entry, "Exec"@) is None,
            Err(LaunchError::EmptyExec) => entry_value(entry, "Exec"@) matches Some(exec) && argv(
                exec,
            ).len() == 0,
        },
{
    let e = match entry {
        Some(e) => e,
        None => return Err(LaunchError::NoEntry),
    };
    let exec = match e.get("Exec") {
        Some(exec) => exec,
        None => return Err(LaunchError::NoExec),
    };
    let mut args = exec_argv(exec.as_str());
    let ghost program = argv(exec@);
    assert(text::views(args@).len() == args@.len());
    if args.len() == 0 {
        return Err(LaunchError::EmptyExec);
    }
    let mut out: Vec<String> = Vec::new();
    out.push("--user".to_string());
    out.push("--collect".to_string());
    out.push("--quiet".to_string());
    let mut description = text::chars("--description=sd_rust launch: ");
    text::append(&mut description, app);
    out.push(text::string(&description));
    let ghost head = seq![
        "--user"@,
        "--collect"@,
        "--quiet"@,
        "--description=sd_rust launch: "@ + app@,
    ];
    let mut i: usize = 0;
    assert(text::views(out@) =~= head + setenv_options(env@.take(0)));
    while i < env.len()
        invariant
            i <= env.len(),
            text::views(out@) == head + setenv_options(env@.take(i as int)),
        decreases env.len() - i,
    {
        let ghost before = out@;
        let mut option = text::chars("--setenv=");
        text::append(&mut option, env[i].0.as_str());
        text::append(&mut option, "=");
        text::append(&mut option, env[i].1.as_str());
        out.push(text::string(&option));
        assert(text::views(out@) =~= text::views(before).push(option@));
        assert(setenv_options(env@.take(i + 1)) =~= setenv_options(env@.take(i as int)).push(
            option@,
        ));
        assert(text::views(out@) =~= head + setenv_options(env@.take(i + 1)));
        i = i + 1;
    }
    assert(env@.take(env@.len() as int) =~= env@);
    let ghost before = out@;
    out.push("--".to_string());
    assert(text::views(out@) =~= text::views(before).push("--"@));
    let ghost before = out@;
    let ghost added = args@;
    out.append(&mut args);
    assert(text::views(out@) =~= text::views(before) + text::views(added));
    assert(text::views(out@) =~= systemd_run(app@, env@, program));
    Ok(out)
}

/// The directory for runtime files: the given one where it is set and not empty,
/// else the user's own below `/run/user`.
pub fn runtime_dir(xdg_runtime_dir: Option<&str>, uid: u32) -> (r: String)
    ensures
        r@ == (if xdg_runtime_dir is Some && xdg_runtime_dir->0@.len() > 0 {
            xdg_runtime_dir->0@
        } else {
            "/run/user/"@ + text::decimal(uid as nat)
        }),
{
    if let Some(dir) = xdg_runtime_dir {
        let given = text::chars(dir);
        if given.len() > 0 {
            return dir.to_string();
        }
    }
    let mut out = text::chars("/run/user/");
    let digits = text::write_decimal(uid as u64);
    text::append_chars(&mut out, &digits);
    text::string(&out)
}

/// Where the window script is written, below the runtime directory.
pub fn raise_script_path(runtime_dir: &str) -> (r: String)
    ensures
        r@ == path::joined(path::joined(runtime_dir@, "sd_rust"@), "raise.js"@),
{
    let dir = path::join(runtime_dir, "sd_rust");
    path::join(dir.as_str(), "raise.js")
}

// --- Icons -----------------------------------------------------------------

/// The icon extensions that can be decoded: raster formats and SVG.
pub open spec fn decodable_exts() -> Seq<Seq<char>> {
    seq![
        "png"@,
        "jpg"@,
        "jpeg"@,
        "bmp"@,
        "gif"@,
        "webp"@,
        "tiff"@,
        "tif"@,
        "ico"@,
        "svg"@,
        "svgz"@,
    ]
}

/// Whether a path names an icon file that can be decoded, by its extension.
pub open spec fn decodable(p: Seq<char>) -> bool {
    match path::extension_of(p) {
        Some(e) => decodable_exts().contains(text::lowered(e)),
        None => false,
    }
}

/// Can the icon file at `p` be decoded?
pub fn is_decodable(p: &str) -> (r: bool)
    ensures
        r == decodable(p@),
{
    match path::extension(p) {
        Some(e) => {
            let e = text::to_lower(&e);
            let found = text::same(&e, "png") || text::same(&e, "jpg") || text::same(&e, "jpeg")
                || text::same(&e, "bmp") || text::same(&e, "gif") || text::same(&e, "webp")
                || text::same(&e, "tiff") || text::same(&e, "tif") || text::same(&e, "ico")
                || text::same(&e, "svg") || text::same(&e, "svgz");
            proof {
                let all = decodable_exts();
                assert(all[0] == "png"@ && all[1] == "jpg"@ && all[2] == "jpeg"@ && all[3] == "bmp"@
                    && all[4] == "gif"@ && all[5] == "webp"@ && all[6] == "tiff"@ && all[7]
                    == "tif"@ && all[8] == "ico"@ && all[9] == "svg"@ && all[10] == "svgz"@);
            }
            found
        },
        None => false,
    }
}

/// Where the icon of an application comes from.
#[derive(Debug, Clone)]
pub enum IconSource {
    /// The entry names no icon.
    Missing,
    /// A file, by its absolute path.
    File(String),
    /// A name to look up in the icon theme.
    Themed(String),
}

/// The source of an application's icon: an absolute path in `Icon` is used
/// directly, anything else is a themed icon's name.
pub fn icon_source(entry: Option<&DesktopEntry>) -> (r: IconSource)
    ensures
        match r {
            IconSource::Missing => entry_value(entry, "Icon"@) is None,
            IconSource::File(p) => entry_value(entry, "Icon"@) == Some(p@) && path::absolute(p@),
            IconSource::Themed(n) => entry_value(entry, "Icon"@) == Some(n@) && !path::absolute(n@),
        },
{
    if let Some(e) = entry {
        if let Some(icon) = e.get("Icon") {
            let name = icon.as_str().to_string();
            return if path::is_absolute(icon.as_str()) {
                IconSource::File(name)
            } else {
                IconSource::Themed(name)
            };
        }
    }
    IconSource::Missing
}

/// The icon file to show, given the one that was found: that one if it can be
/// decoded, else none (the key then falls back to blank).
pub fn resolve_icon_path(candidate: Option<String>) -> (r: Option<String>)
    ensures
        r == (if candidate is Some && decodable(candidate->0@) {
            candidate
        } else {
            None
        }),
{
    match candidate {
        Some(p) => if is_decodable(p.as_str()) {
            Some(p)
        } else {
            None
        },
        None => None,
    }
}

// --- Finding the entry of an application -----------------------------------

/// The directory in which `base` keeps its applications.
pub open spec fn applications_of() -> spec_fn(Seq<char>) -> Seq<char> {
    |base: Seq<char>| path::joined(base, "applications"@)
}

/// The application directories, in precedence order.
pub open spec fn app_dirs(data_home: Option<Seq<char>>, data_dirs: Seq<char>) -> Seq<Seq<char>> {
    let home = match data_home {
        Some(h) => seq![applications_of()(h)],
        None => Seq::empty(),
    };
    home + text::kept(text::split_on(data_dirs, ':')).map_values(applications_of())
}

/// The directories searched where the environment names none.
pub const DEFAULT_DATA_DIRS: &'static str = "/usr/local/share:/usr/share";

/// XDG application directories, in precedence order (the data home first).
/// `data_dirs` is the value of `XDG_DATA_DIRS` where it is set.
pub fn application_dirs(data_home: Option<&str>, data_dirs: Option<&str>) -> (r: Vec<String>)
    ensures
        text::views(r@) == app_dirs(
            opt_view(data_home),
            match data_dirs {
                Some(d) => d@,
                None => DEFAULT_DATA_DIRS@,
            },
        ),
{
    let mut out: Vec<String> = Vec::new();
    if let Some(home) = data_home {
        out.push(path::join(home, "applications"));
    }
    let ghost home = text::views(out@);
    let named = match data_dirs {
        Some(d) => d,
        None => DEFAULT_DATA_DIRS,
    };
    let pieces = text::split(&text::chars(named), ':');
    let ghost all = text::chars_views(pieces@);
    let mut i: usize = 0;
    proof {
        reveal(Seq::filter);
        assert(all.take(0) =~= Seq::<Seq<char>>::empty());
        assert(text::views(out@) =~= home + text::kept(all.take(0)).map_values(applications_of()));
    }
    while i < pieces.len()
        invariant
            all == text::chars_views(pieces@),
            i <= pieces.len(),
            text::views(out@) == home + text::kept(all.take(i as int)).map_values(
                applications_of(),
            ),
        decreases pieces.len() - i,
    {
        let ghost before = out@;
        proof {
            assert(all.take(i + 1) =~= all.take(i as int).push(pieces@[i as int]@));
            text::kept_push(all.take(i as int), pieces@[i as int]@);
        }
        if pieces[i].len() > 0 {
            let base = text::string(&pieces[i]);
            out.push(path::join(base.as_str(), "applications"));
            proof {
                let kept = text::kept(all.take(i as int));
                assert(kept.push(base@).map_values(applications_of()) =~= kept.map_values(
                    applications_of(),
                ).push(applications_of()(base@)));
                assert(text::views(out@) =~= text::views(before).push(applications_of()(base@)));
                assert(text::views(out@) =~= home + text::kept(all.take(i + 1)).map_values(
                    applications_of(),
                ));
            }
        }
        i = i + 1;
    }
    assert(all.take(all.len() as int) =~= all);
    out
}

/// An application directory as it stands on disk.
#[derive(Debug, Clone)]
pub struct AppDir {
    /// Its path.
    pub path: String,
    /// Whether it holds a file of exactly the wanted name.
    pub has_wanted: bool,
    /// The names of its files; none where it cannot be read.
    pub files: Vec<String>,
}

/// The name of the file wanted for an application: its id, with the extension
/// added where it is missing.
pub open spec fn wanted(app: Seq<char>) -> Seq<char> {
    if text::ends(app, ".desktop"@) {
        app
    } else {
        app + ".desktop"@
    }
}

/// The name of the file wanted for an application.
pub fn wanted_file(app: &str) -> (r: String)
    ensures
        r@ == wanted(app@),
{
    let mut v = text::chars(app);
    if !text::ends_with(&v, ".desktop") {
        text::append(&mut v, ".desktop");
    }
    text::string(&v)
}

/// Whether a file is the entry of an application in all but case or vendor
/// prefix.
pub open spec fn near_match(app: Seq<char>, file: Seq<char>) -> bool {
    let id = text::lowered(text::without_suffixes(wanted(app), ".desktop"@));
    &&& path::extension_of(file) == Some("desktop"@)
    &&& match path::stem_of(file) {
        Some(name) => text::lowered(name) == id || text::ends(text::lowered(name), "."@ + id),
        None => false,
    }
}

/// The first of the files that nearly matches.
pub open spec fn first_near(app: Seq<char>, files: Seq<Seq<char>>) -> Option<Seq<char>>
    decreases files.len(),
{
    if files.len() == 0 {
        None
    } else if near_match(app, files[0]) {
        Some(files[0])
    } else {
        first_near(app, files.drop_first())
    }
}

/// The wanted file of the first directory that has it.
pub open spec fn exact_entry(app: Seq<char>, dirs: Seq<AppDir>) -> Option<Seq<char>>
    decreases dirs.len(),
{
    if dirs.len() == 0 {
        None
    } else if dirs[0].has_wanted {
        Some(path::joined(dirs[0].path@, wanted(app)))
    } else {
        exact_entry(app, dirs.drop_first())
    }
}

/// The first near match of the first directory that has one.
pub open spec fn near_entry(app: Seq<char>, dirs: Seq<AppDir>) -> Option<Seq<char>>
    decreases dirs.len(),
{
    if dirs.len() == 0 {
        None
    } else {
        match first_near(app, text::views(dirs[0].files@)) {
            Some(file) => Some(path::joined(dirs[0].path@, file)),
            None => near_entry(app, dirs.drop_first()),
        }
    }
}

/// The path of the entry of an application: an exact match in any directory
/// comes before any near one.
pub open spec fn entry_path(app: Seq<char>, dirs: Seq<AppDir>) -> Option<Seq<char>> {
    match exact_entry(app, dirs) {
        Some(p) => Some(p),
        None => near_entry(app, dirs),
    }
}

/// Whether a file nearly matches.
fn nearly_matches(id: &Vec<char>, file: &str, Ghost(app): Ghost<Seq<char>>) -> (r: bool)
    requires
        id@ == text::lowered(text::without_suffixes(wanted(app), ".desktop"@)),
    ensures
        r == near_match(app, file@),
{
    let ext = match path::extension(file) {
        Some(e) => e,
        None => return false,
    };
    if !text::same(&ext, "desktop") {
        return false;
    }
    match path::stem(file) {
        Some(name) => {
            let name = text::to_lower(&name);
            let mut dotted = text::chars(".");
            text::append_chars(&mut dotted, id);
            text::same_chars(&name, id) || text::ends_with_chars(&name, &dotted)
        },
        None => false,
    }
}

/// Find the `.desktop` file for `app`. Takes an exact `<app>.desktop` (the id)
/// in the first directory that has it, else the first file whose stem matches
/// case-insensitively, be it with a vendor prefix.
pub fn find_desktop_file(app: &str, dirs: &Vec<AppDir>) -> (r: Option<String>)
    ensures
        match r {
            Some(p) => entry_path(app@, dirs@) == Some(p@),
            None => entry_path(app@, dirs@) is None,
        },
{
    let file = wanted_file(app);
    let mut i: usize = 0;
    assert(dirs@.skip(0) =~= dirs@);
    while i < dirs.len()
        invariant
            i <= dirs.len(),
            file@ == wanted(app@),
            exact_entry(app@, dirs@.skip(i as int)) == exact_entry(app@, dirs@),
        decreases dirs.len() - i,
    {
        assert(dirs@.skip(i as int).drop_first() =~= dirs@.skip(i + 1));
        if dirs[i].has_wanted {
            return Some(path::join(dirs[i].path.as_str(), file.as_str()));
        }
        i = i + 1;
    }
    let id = text::to_lower(&text::trim_suffixes(&text::chars(file.as_str()), ".desktop"));
    let mut i: usize = 0;
    while i < dirs.len()
        invariant
            i <= dirs.len(),
            id@ == text::lowered(text::without_suffixes(wanted(app@), ".desktop"@)),
            exact_entry(app@, dirs@) is None,
            near_entry(app@, dirs@.skip(i as int)) == near_entry(app@, dirs@),
        decreases dirs.len() - i,
    {
        let dir = &dirs[i];
        assert(dirs@.skip(i as int).drop_first() =~= dirs@.skip(i + 1));
        assert(dirs@.skip(i as int)[0] == dir);
        let ghost files = text::views(dir.files@);
        let mut j: usize = 0;
        assert(files.skip(0) =~= files);
        while j < dir.files.len()
            invariant
                i < dirs.len(),
                dir == dirs@[i as int],
                files == text::views(dir.files@),
                j <= dir.files.len(),
                id@ == text::lowered(text::without_suffixes(wanted(app@), ".desktop"@)),
                exact_entry(app@, dirs@) is None,
                near_entry(app@, dirs@.skip(i as int)) == near_entry(app@, dirs@),
                dirs@.skip(i as int)[0] == dir,
                first_near(app@, files.skip(j as int)) == first_near(app@, files),
            decreases dir.files.len() - j,
        {
            assert(files.skip(j as int).drop_first() =~= files.skip(j + 1));
            assert(files.skip(j as int)[0] == dir.files@[j as int]@);
            if nearly_matches(&id, dir.files[j].as_str(), Ghost(app@)) {
                return Some(path::join(dir.path.as_str(), dir.files[j].as_str()));
            }
            j = j + 1;
        }
        i = i + 1;
    }
    None
}

/// An exact match wins over any near match, and a directory over those behind it.
pub proof fn exact_match_wins(app: Seq<char>, dirs: Seq<AppDir>, i: int)
    requires
        0 <= i < dirs.len(),
        dirs[i].has_wanted,
        forall|j: int| 0 <= j < i ==> !(#[trigger] dirs[j]).has_wanted,
    ensures
        exact_entry(app, dirs) == Some(path::joined(dirs[i].path@, wanted(app))),
        entry_path(app, dirs) == exact_entry(app, dirs),
    decreases i,
{
    if i > 0 {
        assert(dirs.drop_first()[i - 1] == dirs[i]);
        assert forall|j: int| 0 <= j < i - 1 implies !(#[trigger] dirs.drop_first()[j]).has_wanted by {
            assert(dirs.drop_first()[j] == dirs[j + 1]);
        }
        exact_match_wins(app, dirs.drop_first(), i - 1);
    }
}

// --- Laws of Exec lines ----------------------------------------------------

proof fn scan_behind_a_blank(a: Seq<char>, c: char, b: Seq<char>)
    requires
        !scan(a).quoted,
        !scan(a).percent,
        text::is_space(c),
    ensures
        scan(a.push(c) + b) == (Scan { args: argv(a) + scan(b).args, ..scan(b) }),
    decreases b.len(),
{
    if b.len() == 0 {
        assert(a.push(c) + b =~= a.push(c));
        assert(a.push(c).drop_last() =~= a);
        assert(scan(a.push(c)) == scan_char(scan(a), c));
        if !scan(a).started {
            unstarted_is_empty(a);
        }
        assert(scan(a.push(c)) =~= Scan { args: argv(a) + scan(b).args, ..scan(b) });
    } else {
        let d = b.drop_last();
        scan_behind_a_blank(a, c, d);
        assert((a.push(c) + b).drop_last() =~= a.push(c) + d);
        assert((a.push(c) + b).last() == b.last());
        let st = scan(d);
        assert((argv(a) + st.args).push(st.current) =~= argv(a) + st.args.push(st.current));
        assert(scan(a.push(c) + b) =~= Scan { args: argv(a) + scan(b).args, ..scan(b) });
    }
}

proof fn unstarted_is_empty(s: Seq<char>)
    ensures
        !scan(s).started ==> scan(s).current.len() == 0 && !scan(s).quoted,
    decreases s.len(),
{
    if s.len() > 0 {
        unstarted_is_empty(s.drop_last());
    }
}

/// A blank outside quotes parts arguments: those of two texts with a blank
/// between them are those of the one and then those of the other.
pub proof fn arguments_are_parted_by_blanks(a: Seq<char>, c: char, b: Seq<char>)
    requires
        !scan(a).quoted,
        !scan(a).percent,
        text::is_space(c),
    ensures
        argv(a.push(c) + b) == argv(a) + argv(b),
{
    scan_behind_a_blank(a, c, b);
    let st = scan(b);
    assert((argv(a) + st.args).push(st.current) =~= argv(a) + st.args.push(st.current));
}

proof fn scan_plain_run(st: Seq<char>, s: Seq<char>)
    requires
        !scan(st).percent,
        forall|i: int|
            0 <= i < s.len() ==> #[trigger] s[i] != '"' && s[i] != '%' && (scan(st).quoted
                || !text::is_space(s[i])),
    ensures
        scan(st + s) == (Scan {
            current: scan(st).current + s,
            started: scan(st).started || s.len() > 0,
            ..scan(st)
        }),
    decreases s.len(),
{
    if s.len() == 0 {
        assert(st + s =~= st);
        assert(scan(st).current + s =~= scan(st).current);
    } else {
        let t = s.drop_last();
        assert forall|i: int| 0 <= i < t.len() implies #[trigger] t[i] != '"' && t[i] != '%' && (
        scan(st).quoted || !text::is_space(t[i])) by {
            assert(t[i] == s[i]);
        }
        scan_plain_run(st, t);
        assert((st + s).drop_last() =~= st + t);
        let c = s[s.len() - 1];
        assert((scan(st).current + t).push(c) =~= scan(st).current + s);
        assert(scan(st + s) =~= Scan {
            current: scan(st).current + s,
            started: true,
            ..scan(st)
        });
    }
}

/// Quotes keep their blanks inside the argument in which they stand, and vanish
/// themselves.
pub proof fn quotes_keep_an_argument_together(a: Seq<char>, s: Seq<char>, b: Seq<char>)
    requires
        forall|i: int|
            0 <= i < a.len() ==> #[trigger] a[i] != '"' && a[i] != '%' && !text::is_space(a[i]),
        forall|i: int| 0 <= i < s.len() ==> #[trigger] s[i] != '"' && s[i] != '%',
        forall|i: int|
            0 <= i < b.len() ==> #[trigger] b[i] != '"' && b[i] != '%' && !text::is_space(b[i]),
    ensures
        argv(a.push('"') + s.push('"') + b) == seq![a + s + b],
{
    let none = Seq::<char>::empty();
    assert(none + a =~= a);
    scan_plain_run(none, a);
    assert(scan(a).current =~= a);
    let open = a.push('"');
    assert(open.drop_last() =~= a);
    scan_plain_run(open, s);
    let shut = open + s.push('"');
    assert(shut.drop_last() =~= open + s);
    assert(shut.last() == '"');
    scan_plain_run(shut, b);
    assert(argv(shut + b) =~= seq![a + s + b]);
}

// --- Laws of desktop entries -----------------------------------------------

/// The value of a key is that of the first pair with that key, and there is none
/// where no pair has it.
pub proof fn first_value_counts(e: &DesktopEntry, key: Seq<char>, i: int)
    requires
        0 <= i <= e.pairs@.len(),
        forall|j: int| 0 <= j < i ==> (#[trigger] e.pairs@[j]).0@ != key,
        i < e.pairs@.len() ==> e.pairs@[i].0@ == key,
    ensures
        value_of(e@, key) == (if i < e.pairs@.len() {
            Some(e.pairs@[i].1@)
        } else {
            None
        }),
        entry_value(Some(e), key) == value_of(e@, key),
        entry_value(None, key) is None,
{
    let p = e@;
    assert(p.len() == e.pairs@.len());
    assert forall|j: int| 0 <= j < p.len() implies #[trigger] p[j] == (
        e.pairs@[j].0@,
        e.pairs@[j].1@,
    ) by {}
    first_pair(p, key, i);
}

proof fn first_pair(p: Seq<(Seq<char>, Seq<char>)>, key: Seq<char>, i: int)
    requires
        0 <= i <= p.len(),
        forall|j: int| 0 <= j < i ==> (#[trigger] p[j]).0 != key,
        i < p.len() ==> p[i].0 == key,
    ensures
        value_of(p, key) == (if i < p.len() {
            Some(p[i].1)
        } else {
            None
        }),
    decreases i,
{
    if i > 0 {
        let q = p.drop_first();
        assert(p[0].0 != key);
        assert forall|j: int| 0 <= j < i - 1 implies (#[trigger] q[j]).0 != key by {
            assert(q[j] == p[j + 1]);
        }
        first_pair(q, key, i - 1);
    }
}

proof fn value_of_push(
    p: Seq<(Seq<char>, Seq<char>)>,
    key: Seq<char>,
    value: Seq<char>,
    other: Seq<char>,
)
    ensures
        value_of(p.push((key, value)), other) == (if value_of(p, other) is Some {
            value_of(p, other)
        } else if key == other {
            Some(value)
        } else {
            None
        }),
    decreases p.len(),
{
    let q = p.push((key, value));
    if p.len() == 0 {
        assert(q.drop_first() =~= Seq::<(Seq<char>, Seq<char>)>::empty());
        reveal_with_fuel(value_of, 2);
    } else {
        assert(q[0] == p[0]);
        assert(q.drop_first() =~= p.drop_first().push((key, value)));
        value_of_push(p.drop_first(), key, value, other);
    }
}

/// Adding a key gives it its value, unless it has one, and leaves all others be.
pub proof fn adding_a_key(
    p: Seq<(Seq<char>, Seq<char>)>,
    key: Seq<char>,
    value: Seq<char>,
    other: Seq<char>,
)
    ensures
        value_of(p, key) is None ==> value_of(with_pair(p, key, value), key) == Some(value),
        value_of(p, key) is Some ==> value_of(with_pair(p, key, value), key) == value_of(p, key),
        other != key ==> value_of(with_pair(p, key, value), other) == value_of(p, other),
{
    value_of_push(p, key, value, key);
    value_of_push(p, key, value, other);
}

/// A line `key=value` defines the key, blanks around the two aside, unless a line
/// before it did; comments, empty lines and lines without an equals sign define
/// nothing.
pub proof fn lines_define_keys(
    lines: Seq<Seq<char>>,
    line: Seq<char>,
    key: Seq<char>,
    value: Seq<char>,
    name: Seq<char>,
)
    requires
        !key.contains('='),
    ensures
        ({
            let t = text::trimmed(line);
            let before = value_of(pairs_in(lines), name);
            let after = value_of(pairs_in(lines.push(line)), name);
            &&& value_of(pairs_in(Seq::empty()), name) is None
            &&& before is Some ==> after == before
            &&& t.len() == 0 || t[0] == '#' || !t.contains('=') ==> after == before
            &&& before is None && t == key.push('=') + value && t[0] != '#' ==> after == (
            if text::trimmed(key) == name {
                Some(text::trimmed(value))
            } else {
                None
            })
        }),
{
    let t = text::trimmed(line);
    assert(lines.push(line).drop_last() =~= lines);
    if !t.contains('=') {
        text::split_once_none(t, '=');
    }
    if t == key.push('=') + value {
        text::first_separator_splits(key, '=', value);
    }
    if let Some((k, v)) = text::split_once_at(t, '=') {
        value_of_push(pairs_in(lines), text::trimmed(k), text::trimmed(v), name);
    }
}

/// The main group is what stands between its header and the next one: lines
/// before the header, and those of groups behind it, do not count.
pub proof fn main_group_is_between_headers(
    before: Seq<Seq<char>>,
    header: Seq<char>,
    body: Seq<Seq<char>>,
    after: Seq<Seq<char>>,
)
    requires
        forall|i: int|
            0 <= i < before.len() ==> text::trimmed(#[trigger] before[i]) != "[Desktop Entry]"@,
        text::trimmed(header) == "[Desktop Entry]"@,
        forall|i: int|
            0 <= i < body.len() ==> {
                let t = text::trimmed(#[trigger] body[i]);
                !(t.len() > 0 && t[0] == '[' && t.last() == ']')
            },
        after.len() > 0 ==> {
            let t = text::trimmed(after[0]);
            t.len() > 0 && t[0] == '[' && t.last() == ']'
        },
    ensures
        main_group(before.push(header) + body + after) == body,
        main_pairs(before.push(header) + body + after) == pairs_in(body),
        main_group(before) == Seq::<Seq<char>>::empty(),
    decreases before.len(),
{
    let all = before.push(header) + body + after;
    if before.len() == 0 {
        assert(all[0] == header);
        assert(all.drop_first() =~= body + after);
        body_up_to_header(body, after);
    } else {
        let rest = before.drop_first();
        assert forall|i: int| 0 <= i < rest.len() implies text::trimmed(#[trigger] rest[i])
            != "[Desktop Entry]"@ by {
            assert(rest[i] == before[i + 1]);
        }
        main_group_is_between_headers(rest, header, body, after);
        assert(all[0] == before[0]);
        assert(all.drop_first() =~= rest.push(header) + body + after);
    }
}

proof fn body_up_to_header(body: Seq<Seq<char>>, after: Seq<Seq<char>>)
    requires
        forall|i: int| 0 <= i < body.len() ==> !is_header(text::trimmed(#[trigger] body[i])),
        after.len() > 0 ==> is_header(text::trimmed(after[0])),
    ensures
        up_to_header(body + after) == body,
    decreases body.len(),
{
    if body.len() == 0 {
        assert(body + after =~= after);
        assert(up_to_header(after) =~= body);
    } else {
        let rest = body.drop_first();
        assert forall|i: int| 0 <= i < rest.len() implies !is_header(
            text::trimmed(#[trigger] rest[i]),
        ) by {
            assert(rest[i] == body[i + 1]);
        }
        body_up_to_header(rest, after);
        assert(!is_header(text::trimmed(body[0])));
        assert((body + after)[0] == body[0]);
        assert((body + after).drop_first() =~= rest + after);
        assert(seq![body[0]] + rest =~= body);
    }
}

// --- Laws of window classes ------------------------------------------------

/// Sanitizing goes character by character: letters are lowered, digits and the
/// four marks stay, and every other character goes.
pub proof fn sanitized_by_character(a: Seq<char>, b: Seq<char>, c: char)
    ensures
        sanitized(a + b) == sanitized(a) + sanitized(b),
        sanitized(Seq::empty()) == Seq::<char>::empty(),
        ('a' <= c <= 'z') || ('0' <= c <= '9') || c == '.' || c == '_' || c == '-' || c == '+'
            ==> sanitized(seq![c]) == seq![c],
        'A' <= c <= 'Z' ==> sanitized(seq![c]).len() == 1 && sanitized(seq![c])[0] as u32 == c as u32
            + 32,
        !(('a' <= c <= 'z') || ('A' <= c <= 'Z') || ('0' <= c <= '9') || c == '.' || c == '_' || c
            == '-' || c == '+') ==> sanitized(seq![c]) == Seq::<char>::empty(),
{
    reveal(Seq::filter);
    let f = class_char();
    Seq::<char>::filter_distributes_over_add(a, b, f);
    assert(sanitized(a + b) =~= sanitized(a) + sanitized(b));
    let one = seq![c];
    let none = Seq::<char>::empty();
    assert(one.drop_last() =~= none);
    assert(none.filter(f) =~= none);
    assert(one.filter(f) =~= (if f(c) {
        one
    } else {
        none
    }));
    assert(sanitized(none) =~= none);
    if f(c) {
        assert(sanitized(one) =~= seq![text::lower(c)]);
    }
}

/// Every name that something is left of is a candidate: the override, the
/// application id, the id without `.desktop`, the entry's window class and the
/// name of the program. Nothing else is one.
pub proof fn candidates_are_complete(
    app: Seq<char>,
    wm_class: Option<Seq<char>>,
    exec_name: Seq<char>,
    window_class: Option<Seq<char>>,
)
    ensures
        ({
            let all = class_candidates(app, wm_class, exec_name, window_class);
            let stem = text::without_suffixes(app, ".desktop"@);
            &&& forall|w: Seq<char>|
                window_class == Some(w) && #[trigger] sanitized(w).len() > 0 ==> all.contains(
                    sanitized(w),
                )
            &&& sanitized(app).len() > 0 ==> all.contains(sanitized(app))
            &&& sanitized(stem).len() > 0 ==> all.contains(sanitized(stem))
            &&& forall|w: Seq<char>|
                wm_class == Some(w) && #[trigger] sanitized(w).len() > 0 ==> all.contains(
                    sanitized(w),
                )
            &&& sanitized(exec_name).len() > 0 ==> all.contains(sanitized(exec_name))
            &&& forall|c: Seq<char>| #[trigger]
                all.contains(c) ==> {
                    ||| window_class is Some && c == sanitized(window_class->0)
                    ||| c == sanitized(app)
                    ||| c == sanitized(stem)
                    ||| wm_class is Some && c == sanitized(wm_class->0)
                    ||| c == sanitized(exec_name)
                }
        }),
{
    let none = Seq::<Seq<char>>::empty();
    let first = with_optional_class(none, window_class);
    let id = with_class(first, app);
    let s = text::without_suffixes(app, ".desktop"@);
    let stem = with_class(id, s);
    let wm = with_optional_class(stem, wm_class);
    let all = with_class(wm, exec_name);
    if let Some(w) = window_class {
        with_class_holds(none, w);
    }
    with_class_holds(first, app);
    with_class_holds(id, s);
    if let Some(w) = wm_class {
        with_class_holds(stem, w);
    }
    with_class_holds(wm, exec_name);
}

proof fn with_class_holds(out: Seq<Seq<char>>, s: Seq<char>)
    ensures
        forall|c: Seq<char>| #[trigger]
            with_class(out, s).contains(c) <==> out.contains(c) || (c == sanitized(s) && c.len() > 0),
{
    let c = sanitized(s);
    if c.len() > 0 && !out.contains(c) {
        let w = out.push(c);
        assert forall|x: Seq<char>| #[trigger] w.contains(x) <==> out.contains(x) || x == c by {
            if out.contains(x) {
                let k = choose|k: int| 0 <= k < out.len() && out[k] == x;
                assert(w[k] == x);
            }
            if x == c {
                assert(w[out.len() as int] == c);
            }
            if w.contains(x) && x != c {
                let k = choose|k: int| 0 <= k < w.len() && w[k] == x;
                assert(out[k] == x);
            }
        }
    }
}

/// Where the five names differ and something is left of each, the candidates are
/// the override, the id, the id without `.desktop`, the entry's window class and
/// the program, in this order.
pub proof fn candidates_are_in_order(
    app: Seq<char>,
    wm_class: Seq<char>,
    exec_name: Seq<char>,
    window_class: Seq<char>,
)
    requires
        ({
            let stem = text::without_suffixes(app, ".desktop"@);
            let five = seq![
                sanitized(window_class),
                sanitized(app),
                sanitized(stem),
                sanitized(wm_class),
                sanitized(exec_name),
            ];
            five.no_duplicates() && forall|i: int| 0 <= i < 5 ==> (#[trigger] five[i]).len() > 0
        }),
    ensures
        class_candidates(app, Some(wm_class), exec_name, Some(window_class)) == seq![
            sanitized(window_class),
            sanitized(app),
            sanitized(text::without_suffixes(app, ".desktop"@)),
            sanitized(wm_class),
            sanitized(exec_name),
        ],
{
    let stem = text::without_suffixes(app, ".desktop"@);
    let a = sanitized(window_class);
    let b = sanitized(app);
    let c = sanitized(stem);
    let d = sanitized(wm_class);
    let e = sanitized(exec_name);
    let five = seq![a, b, c, d, e];
    assert(five[0].len() > 0 && five[1].len() > 0 && five[2].len() > 0 && five[3].len() > 0
        && five[4].len() > 0);
    assert(five[0] != five[1] && five[0] != five[2] && five[0] != five[3] && five[0] != five[4]);
    assert(five[1] != five[2] && five[1] != five[3] && five[1] != five[4]);
    assert(five[2] != five[3] && five[2] != five[4] && five[3] != five[4]);
    let none = Seq::<Seq<char>>::empty();
    assert(with_class(none, window_class) =~= seq![a]);
    assert(with_class(seq![a], app) =~= seq![a, b]);
    assert(with_class(seq![a, b], stem) =~= seq![a, b, c]);
    assert(with_class(seq![a, b, c], wm_class) =~= seq![a, b, c, d]);
    assert(with_class(seq![a, b, c, d], exec_name) =~= five);
}

/// The list in the script is the classes in order, each between double quotes,
/// with a comma and a blank between each two.
pub proof fn list_quotes_each(a: Seq<Seq<char>>, b: Seq<Seq<char>>, item: Seq<char>)
    requires
        a.len() > 0,
        b.len() > 0,
    ensures
        quoted_list(a + b) == quoted_list(a) + seq![',', ' '] + quoted_list(b),
        quoted_list(seq![item]) == seq!['"'] + item + seq!['"'],
        quoted_list(Seq::empty()) == Seq::<char>::empty(),
    decreases b.len(),
{
    reveal_strlit("\"");
    reveal_strlit(", ");
    assert("\""@ =~= seq!['"']);
    assert(", "@ =~= seq![',', ' ']);
    let q = |s: Seq<char>| seq!['"'] + s + seq!['"'];
    assert((a + b).drop_last() =~= a + b.drop_last());
    if b.len() == 1 {
        assert(a + b.drop_last() =~= a);
    } else {
        list_quotes_each(a, b.drop_last(), item);
        assert(quoted_list(a + b) =~= quoted_list(a) + seq![',', ' '] + quoted_list(b));
    }
}

// --- Laws of launching -----------------------------------------------------

/// The program's path is what stands before the first zero byte of the command
/// line, and all of it where there is none.
pub proof fn command_lines_end_at_zero(a: Seq<u8>, rest: Seq<u8>)
    requires
        forall|i: int| 0 <= i < a.len() ==> #[trigger] a[i] != 0,
    ensures
        before_zero(a) == a,
        before_zero(a.push(0u8) + rest) == a,
    decreases a.len(),
{
    let w = a.push(0u8) + rest;
    if a.len() == 0 {
        assert(before_zero(w) =~= a);
        assert(before_zero(a) =~= a);
    } else {
        let t = a.drop_first();
        assert(a[0] != 0);
        assert forall|i: int| 0 <= i < t.len() implies #[trigger] t[i] != 0 by {
            assert(t[i] == a[i + 1]);
        }
        command_lines_end_at_zero(t, rest);
        assert(w[0] == a[0]);
        assert(w.drop_first() =~= t.push(0u8) + rest);
        assert(seq![a[0]] + t =~= a);
    }
}

/// A process runs a program where its directory is a number and its command line
/// begins with a path to a file of that name.
pub proof fn running_goes_by_the_file_name(p: Process, arg0: Seq<u8>, rest: Seq<u8>, name: Seq<char>)
    requires
        forall|i: int| 0 <= i < arg0.len() ==> #[trigger] arg0[i] != 0,
        p.cmdline@ == arg0.push(0u8) + rest,
    ensures
        runs(p, name) <==> {
            &&& forall|i: int| 0 <= i < p.dir@.len() ==> '0' <= #[trigger] p.dir@[i] <= '9'
            &&& vstd::utf8::valid_utf8(arg0)
            &&& path::name_of(vstd::utf8::decode_utf8(arg0)) == Some(name)
        },
{
    command_lines_end_at_zero(arg0, rest);
}

/// An entry runs the program that its first argument names, wherever it lies and
/// whatever arguments follow; without an `Exec` line, or with one that holds no
/// argument, the application's id stands for it.
pub proof fn program_is_the_first_argument(
    app: Seq<char>,
    dir: Seq<char>,
    name: Seq<char>,
    c: char,
    rest: Seq<char>,
)
    requires
        text::is_space(c),
        name.len() > 0,
        name != "."@,
        name != ".."@,
        !name.contains('/'),
        forall|i: int|
            0 <= i < dir.len() ==> #[trigger] dir[i] != '"' && dir[i] != '%' && !text::is_space(
                dir[i],
            ),
        forall|i: int|
            0 <= i < name.len() ==> #[trigger] name[i] != '"' && name[i] != '%' && !text::is_space(
                name[i],
            ),
    ensures
        program_name(app, Some(dir.push('/') + name)) == name,
        program_name(app, Some((dir.push('/') + name).push(c) + rest)) == name,
        program_name(app, Some(name)) == name,
        program_name(app, None) == app,
        program_name(app, Some(Seq::empty())) == app,
{
    let none = Seq::<char>::empty();
    let p = dir.push('/') + name;
    assert forall|i: int| 0 <= i < p.len() implies #[trigger] p[i] != '"' && p[i] != '%'
        && !text::is_space(p[i]) by {
        if i < dir.len() {
            assert(p[i] == dir[i]);
        } else if i > dir.len() {
            assert(p[i] == name[i - dir.len() - 1]);
        }
    }
    assert(none + p =~= p);
    assert(none + name =~= name);
    scan_plain_run(none, p);
    scan_plain_run(none, name);
    assert(argv(p) =~= seq![p]);
    assert(argv(name) =~= seq![name]);
    arguments_are_parted_by_blanks(p, c, rest);
    path::names_end_paths(dir, name);
}

/// The command line of a launch: four fixed options in front, one option for each
/// forwarded variable with its name and its value, and behind `--` the program
/// and its arguments, unchanged.
pub proof fn launches_pass_everything_on(
    app: Seq<char>,
    env: Seq<(String, String)>,
    args: Seq<Seq<char>>,
)
    ensures
        ({
            let all = systemd_run(app, env, args);
            let n = env.len() as int;
            &&& all.len() == 4 + n + 1 + args.len()
            &&& all[0] == "--user"@ && all[1] == "--collect"@ && all[2] == "--quiet"@
            &&& all[3] == "--description=sd_rust launch: "@ + app
            &&& forall|i: int|
                0 <= i < n ==> #[trigger] all[4 + i] == "--setenv="@ + env[i].0@ + "="@ + env[i].1@
            &&& all[4 + n] == "--"@
            &&& all.skip(5 + n) == args
        }),
{
    let all = systemd_run(app, env, args);
    assert(all.skip(5 + env.len() as int) =~= args);
    assert forall|i: int| 0 <= i < env.len() implies #[trigger] all[4 + i] == "--setenv="@
        + env[i].0@ + "="@ + env[i].1@ by {
        assert(all[4 + i] == setenv_options(env)[i]);
    }
}

/// The session's display, desktop, bus and runtime directory are what is passed
/// on to a launched application.
pub proof fn session_is_passed_on(name: Seq<char>)
    ensures
        forwarded().contains(name) <==> name == "WAYLAND_DISPLAY"@ || name == "DISPLAY"@ || name
            == "XDG_CURRENT_DESKTOP"@ || name == "XDG_SESSION_TYPE"@ || name
            == "DBUS_SESSION_BUS_ADDRESS"@ || name == "XDG_RUNTIME_DIR"@,
{
    let f = forwarded();
    assert(f[0] == "WAYLAND_DISPLAY"@ && f[1] == "DISPLAY"@ && f[2] == "XDG_CURRENT_DESKTOP"@);
    assert(f[3] == "XDG_SESSION_TYPE"@ && f[4] == "DBUS_SESSION_BUS_ADDRESS"@ && f[5]
        == "XDG_RUNTIME_DIR"@);
}

// --- Laws of icons and of finding entries ----------------------------------

/// An icon can be decoded by its extension alone, in any case, where that is one
/// of the raster formats or of the two of SVG; without an extension it cannot.
pub proof fn extensions_decide(
    p: Seq<char>,
    q: Seq<char>,
    stem: Seq<char>,
    ext: Seq<char>,
)
    requires
        !ext.contains('.'),
        stem.len() > 0,
        path::name_of(p) == Some(stem.push('.') + ext),
        path::name_of(q) == Some(ext) || path::name_of(q) is None,
    ensures
        decodable(p) <==> {
            let e = text::lowered(ext);
            e == "png"@ || e == "jpg"@ || e == "jpeg"@ || e == "bmp"@ || e == "gif"@ || e == "webp"@
                || e == "tiff"@ || e == "tif"@ || e == "ico"@ || e == "svg"@ || e == "svgz"@
        },
        !decodable(q),
{
    path::names_are_stems_and_extensions(p, q, stem, ext);
    let all = decodable_exts();
    assert(all[0] == "png"@ && all[1] == "jpg"@ && all[2] == "jpeg"@ && all[3] == "bmp"@ && all[4]
        == "gif"@ && all[5] == "webp"@);
    assert(all[6] == "tiff"@ && all[7] == "tif"@ && all[8] == "ico"@ && all[9] == "svg"@ && all[10]
        == "svgz"@);
}

/// The data home comes first; the named directories follow in their order, those
/// without a name left out.
pub proof fn data_dirs_are_searched_in_order(
    home: Seq<char>,
    a: Seq<char>,
    b: Seq<char>,
)
    ensures
        app_dirs(None, a.push(':') + b) == app_dirs(None, a) + app_dirs(None, b),
        app_dirs(Some(home), a) == seq![path::joined(home, "applications"@)] + app_dirs(None, a),
        !b.contains(':') ==> app_dirs(None, b) == (if b.len() > 0 {
            seq![path::joined(b, "applications"@)]
        } else {
            Seq::<Seq<char>>::empty()
        }),
{
    text::pieces_of_a_joined_text(a, ':', b);
    let x = text::split_on(a, ':');
    let y = text::split_on(b, ':');
    text::kept_by_piece(x, y, b);
    let f = applications_of();
    assert((text::kept(x) + text::kept(y)).map_values(f) =~= text::kept(x).map_values(f)
        + text::kept(y).map_values(f));
    let none = Seq::<Seq<char>>::empty();
    assert(none + text::kept(x).map_values(f) =~= text::kept(x).map_values(f));
    assert(none + text::kept(y).map_values(f) =~= text::kept(y).map_values(f));
    assert(app_dirs(None, a.push(':') + b) =~= app_dirs(None, a) + app_dirs(None, b));
    assert(app_dirs(Some(home), a) =~= seq![path::joined(home, "applications"@)] + app_dirs(
        None,
        a,
    ));
    if !b.contains(':') {
        assert(seq![b].map_values(f) =~= seq![path::joined(b, "applications"@)]);
        assert(none.map_values(f) =~= none);
    }
}

/// The wanted file is the id with the extension, be it that the id has it
/// already.
pub proof fn wanted_has_the_extension(app: Seq<char>)
    ensures
        wanted(app + ".desktop"@) == app + ".desktop"@,
        !text::ends(app, ".desktop"@) ==> wanted(app) == app + ".desktop"@,
        text::ends(wanted(app), ".desktop"@),
        wanted(wanted(app)) == wanted(app),
{
    text::parts_make_the_text(app, ".desktop"@, app);
}

/// A file is nearly the entry of an application where its stem is the id in
/// another case, or ends with a dot and the id behind a vendor's prefix; and in
/// no other case.
pub proof fn near_matches(app: Seq<char>, stem: Seq<char>, file: Seq<char>)
    requires
        !text::ends(app, ".desktop"@),
        stem.len() > 0,
        path::name_of(file) == Some(stem + ".desktop"@),
    ensures
        near_match(app, file) <==> {
            ||| text::lowered(stem) == text::lowered(app)
            ||| exists|vendor: Seq<char>|
                text::lowered(stem) == #[trigger] (vendor + (seq!['.'] + text::lowered(app)))
        },
{
    reveal_strlit(".desktop");
    reveal_strlit("desktop");
    reveal_strlit(".");
    let ext = "desktop"@;
    let dotted = ".desktop"@;
    assert(dotted =~= seq!['.'] + ext);
    assert(stem + dotted =~= stem.push('.') + ext);
    assert(!ext.contains('.'));
    path::names_end_paths(Seq::<char>::empty(), ext);
    path::names_are_stems_and_extensions(file, Seq::<char>::empty(), stem, ext);
    text::suffixes_come_off(app, dotted);
    let id = text::lowered(app);
    let tail = seq!['.'] + id;
    assert("."@ + id =~= tail);
    let name = text::lowered(stem);
    if text::ends(name, tail) {
        text::parts_make_the_text(name, tail, name);
        assert(name == name.take(name.len() - tail.len()) + tail);
    }
    if exists|vendor: Seq<char>| name == #[trigger] (vendor + tail) {
        let vendor = choose|vendor: Seq<char>| name == #[trigger] (vendor + tail);
        text::parts_make_the_text(vendor, tail, name);
    }
}

/// Without an exact match the first directory that holds a near one wins, with
/// the first of its files that is one; without any there is no entry.
pub proof fn first_near_match_wins(app: Seq<char>, dirs: Seq<AppDir>, i: int, k: int)
    requires
        forall|j: int| 0 <= j < dirs.len() ==> !(#[trigger] dirs[j]).has_wanted,
        0 <= i <= dirs.len(),
        forall|j: int, f: int|
            0 <= j < i && 0 <= f < dirs[j].files@.len() ==> !near_match(
                app,
                (#[trigger] dirs[j].files@[f])@,
            ),
        i < dirs.len() ==> {
            &&& 0 <= k < dirs[i].files@.len()
            &&& near_match(app, dirs[i].files@[k]@)
            &&& forall|f: int| 0 <= f < k ==> !near_match(app, (#[trigger] dirs[i].files@[f])@)
        },
    ensures
        entry_path(app, dirs) == (if i < dirs.len() {
            Some(path::joined(dirs[i].path@, dirs[i].files@[k]@))
        } else {
            None
        }),
    decreases dirs.len(),
{
    if dirs.len() > 0 {
        let rest = dirs.drop_first();
        let files = text::views(dirs[0].files@);
        assert(!dirs[0].has_wanted);
        assert forall|j: int| 0 <= j < rest.len() implies !(#[trigger] rest[j]).has_wanted by {
            assert(rest[j] == dirs[j + 1]);
        }
        if i == 0 {
            first_near_file(app, files, k);
            no_exact_entry(app, dirs);
        } else {
            first_near_file(app, files, files.len() as int);
            assert forall|j: int, f: int|
                0 <= j < i - 1 && 0 <= f < rest[j].files@.len() implies !near_match(
                app,
                (#[trigger] rest[j].files@[f])@,
            ) by {
                assert(rest[j] == dirs[j + 1]);
                assert(dirs[j + 1].files@[f]@ == rest[j].files@[f]@);
            }
            if i < dirs.len() {
                assert(rest[i - 1] == dirs[i]);
            }
            first_near_match_wins(app, rest, i - 1, k);
        }
    }
}

proof fn no_exact_entry(app: Seq<char>, dirs: Seq<AppDir>)
    requires
        forall|j: int| 0 <= j < dirs.len() ==> !(#[trigger] dirs[j]).has_wanted,
    ensures
        exact_entry(app, dirs) is None,
    decreases dirs.len(),
{
    if dirs.len() > 0 {
        let rest = dirs.drop_first();
        assert(!dirs[0].has_wanted);
        assert forall|j: int| 0 <= j < rest.len() implies !(#[trigger] rest[j]).has_wanted by {
            assert(rest[j] == dirs[j + 1]);
        }
        no_exact_entry(app, rest);
    }
}

proof fn first_near_file(app: Seq<char>, files: Seq<Seq<char>>, k: int)
    requires
        0 <= k <= files.len(),
        forall|f: int| 0 <= f < k ==> !near_match(app, #[trigger] files[f]),
        k < files.len() ==> near_match(app, files[k]),
    ensures
        first_near(app, files) == (if k < files.len() {
            Some(files[k])
        } else {
            None
        }),
    decreases k,
{
    if k > 0 {
        let rest = files.drop_first();
        assert(!near_match(app, files[0]));
        assert forall|f: int| 0 <= f < k - 1 implies !near_match(app, #[trigger] rest[f]) by {
            assert(rest[f] == files[f + 1]);
        }
        first_near_file(app, rest, k - 1);
    }
}

/// An optional text that is there has its contents, and one that is missing has none.
pub proof fn opt_view_is_the_text(s: &str)
    ensures
        opt_view(Some(s)) == Some(s@),
        opt_view(None) is None,
{
}

} // verus!
