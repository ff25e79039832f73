use vstd::prelude::*;
use crate::text::{chars_of, decimal, decimal_text, parse_id, parsed_id, string_of};

verus! {

/// What a single character becomes in HTML text.
pub open spec fn escaped_char(c: char) -> Seq<char> {
    if c == '&' {
        seq!['&', 'a', 'm', 'p', ';']
    } else if c == '<' {
        seq!['&', 'l', 't', ';']
    } else if c == '>' {
        seq!['&', 'g', 't', ';']
    } else if c == '"' {
        seq!['&', 'q', 'u', 'o', 't', ';']
    } else {
        seq![c]
    }
}

/// A text with each of `&`, `<`, `>` and `"` replaced by its HTML entity.
pub open spec fn escaped(s: Seq<char>) -> Seq<char>
    decreases s.len(),
{
    if s.len() == 0 {
        Seq::empty()
    } else {
        escaped(s.drop_last()) + escaped_char(s.last())
    }
}

/// Calls maud's `Render::render_to` for `str`, which appends the text to the
/// buffer with `&`, `<`, `>` and `"` written as `&amp;`, `&lt;`, `&gt;` and
/// `&quot;` and every other character unchanged.
#[verifier::external_body]
fn escape_html(text: &str) -> (out: String)
    ensures
        out@ == escaped(text@),
{
    let mut out = String::new();
    maud::Render::render_to(text, &mut out);
    out
}

/// Index of the first line feed in `s`, or the length of `s` if it has none.
pub open spec fn first_newline(s: Seq<char>) -> int
    decreases s.len(),
{
    if s.len() == 0 || s[0] == '\n' {
        0
    } else {
        1 + first_newline(s.drop_first())
    }
}

/// A line without the carriage return that stood before its line feed.
pub open spec fn without_return(line: Seq<char>) -> Seq<char> {
    if line.len() > 0 && line.last() == '\r' {
        line.drop_last()
    } else {
        line
    }
}

/// The lines of a text. A line ends at a line feed, or at a carriage return
/// directly followed by one; the last line needs no ending, and an empty
/// text has no lines.
pub open spec fn lines_of(s: Seq<char>) -> Seq<Seq<char>>
    decreases s.len(),
{
    let k = first_newline(s);
    if s.len() == 0 {
        Seq::empty()
    } else if k < 0 || k >= s.len() {
        seq![s]
    } else {
        seq![without_return(s.take(k))] + lines_of(s.skip(k + 1))
    }
}

/// Whether a line is a quotation: it opens with `>` and no second `>` follows.
pub open spec fn is_quote(line: Seq<char>) -> bool {
    line.len() > 0 && line[0] == '>' && !(line.len() > 1 && line[1] == '>')
}

pub const QUOTE_OPEN: &'static str = "<div class=\"green-text\">";

pub const QUOTE_CLOSE: &'static str = "</div>";

pub const LINE_BREAK: &'static str = "<br>";

pub const EMPTY_CONTENT: &'static str = "<div class=\"post-content\"></div>";

/// The HTML of one line: escaped, wrapped in the quotation block if it is a
/// quotation, and followed by a line break.
pub open spec fn line_html(line: Seq<char>) -> Seq<char> {
    if is_quote(line) {
        QUOTE_OPEN@ + escaped(line) + QUOTE_CLOSE@ + LINE_BREAK@
    } else {
        escaped(line) + LINE_BREAK@
    }
}

/// The HTML of a run of lines, one after the other.
pub open spec fn lines_html(lines: Seq<Seq<char>>) -> Seq<char>
    decreases lines.len(),
{
    if lines.len() == 0 {
        Seq::empty()
    } else {
        line_html(lines[0]) + lines_html(lines.drop_first())
    }
}

/// The escaped, quoted form of a text body.
pub open spec fn quoted(body: Seq<char>) -> Seq<char> {
    lines_html(lines_of(body))
}

proof fn lemma_first_newline(s: Seq<char>, k: int)
    requires
        0 <= k <= s.len(),
        forall|j: int| 0 <= j < k ==> s[j] != '\n',
        k < s.len() ==> s[k] == '\n',
    ensures
        first_newline(s) == k,
    decreases s.len(),
{
    if s.len() > 0 && s[0] != '\n' {
        lemma_first_newline(s.drop_first(), k - 1);
    }
}

/// Whether the line `chars[from..to]` is a quotation.
fn line_is_quote(chars: &Vec<char>, from: usize, to: usize) -> (quote: bool)
    requires
        from <= to <= chars.len(),
    ensures
        quote == is_quote(chars@.subrange(from as int, to as int)),
{
    if from < to && chars[from] == '>' {
        !(to - from > 1 && chars[from + 1] == '>')
    } else {
        false
    }
}

/// Escapes a text body line by line, marks its quotations and ends each
/// line with a line break.
pub fn quote_lines(body: &str) -> (html: String)
    ensures
        html@ == quoted(body@),
{
    let chars = chars_of(body);
    let mut html = String::new();
    let mut start: usize = 0;
    proof {
        assert(chars@.skip(0) == chars@);
    }
    while start < chars.len()
        invariant
            start <= chars.len(),
            chars@ == body@,
            html@ + quoted(chars@.skip(start as int)) == quoted(body@),
        decreases chars.len() - start,
    {
        let mut end: usize = start;
        while end < chars.len() && chars[end] != '\n'
            invariant
                start <= end <= chars.len(),
                forall|j: int| start <= j < end ==> chars@[j] != '\n',
            decreases chars.len() - end,
        {
            end += 1;
        }
        let ghost rest = chars@.skip(start as int);
        proof {
            lemma_first_newline(rest, end - start);
        }
        let terminated = end < chars.len();
        let stop: usize = if terminated && end > start && chars[end - 1] == '\r' {
            end - 1
        } else {
            end
        };
        let ghost line = chars@.subrange(start as int, stop as int);
        proof {
            if terminated {
                assert(line == without_return(rest.take(end - start)));
            }
        }
        let quote = line_is_quote(&chars, start, stop);
        let raw = string_of(&chars, start, stop);
        let safe = escape_html(raw.as_str());
        if quote {
            html.append(QUOTE_OPEN);
            html.append(safe.as_str());
            html.append(QUOTE_CLOSE);
        } else {
            html.append(safe.as_str());
        }
        html.append(LINE_BREAK);
        let next: usize = if terminated {
            end + 1
        } else {
            end
        };
        proof {
            let tail = chars@.skip(next as int);
            if terminated {
                assert(rest.skip(end - start + 1) == tail);
            }
            let all = seq![line] + lines_of(tail);
            assert(all.drop_first() == lines_of(tail));
        }
        start = next;
    }
    html
}

pub const BOLD_PATTERN: &'static str = "(\\*\\*)(.+?)(\\*\\*)";

pub const ITALIC_PATTERN: &'static str = "(\\*)(.+?)(\\*)";

pub const REPLY_PATTERN: &'static str = "&gt;&gt;(\\d+)";

pub const BOLD_OPEN: &'static str = "<b>";

pub const BOLD_CLOSE: &'static str = "</b>";

pub const ITALIC_OPEN: &'static str = "<em>";

pub const ITALIC_CLOSE: &'static str = "</em>";

/// The stretches of `text` that the regular expression `pattern` leaves
/// unmatched, in order: what stands before the first match, between each
/// two matches and after the last.
pub uninterp spec fn regex_gaps(pattern: Seq<char>, text: Seq<char>) -> Seq<Seq<char>>;

/// For each match of the regular expression `pattern` in `text`, in order,
/// what its capture group number `group` holds.
pub uninterp spec fn regex_groups(pattern: Seq<char>, group: nat, text: Seq<char>) -> Seq<
    Seq<char>,
>;

/// The patterns of the markup, each with the number of a group that every
/// one of its matches fills.
pub open spec fn markup_group(pattern: Seq<char>, group: nat) -> bool {
    ||| pattern == BOLD_PATTERN@ && group == 2
    ||| pattern == ITALIC_PATTERN@ && group == 2
    ||| pattern == REPLY_PATTERN@ && group == 1
}

/// Compiles the pattern with `regex::Regex::new` and calls `Regex::split`,
/// which yields the parts of the text that no match covers. The pattern is
/// one of the markup's, which compile.
#[verifier::external_body]
fn pattern_gaps(pattern: &str, text: &str) -> (gaps: Vec<String>)
    requires
        exists|group: nat| markup_group(pattern@, group),
    ensures
        gaps.deep_view() == regex_gaps(pattern@, text@),
{
    let re = regex::Regex::new(pattern).unwrap();
    re.split(text).map(|gap| gap.to_string()).collect()
}

/// Compiles the pattern with `regex::Regex::new` and calls
/// `Regex::captures_iter`, which yields the successive non-overlapping
/// matches; of each the text of one capture group is kept. The pattern is
/// one of the markup's, and the group one that each of its matches fills.
#[verifier::external_body]
fn pattern_groups(pattern: &str, group: usize, text: &str) -> (groups: Vec<String>)
    requires
        markup_group(pattern@, group as nat),
    ensures
        groups.deep_view() == regex_groups(pattern@, group as nat, text@),
{
    let re = regex::Regex::new(pattern).unwrap();
    re.captures_iter(text).map(|found| found[group].to_string()).collect()
}

/// The first `n` gaps, each followed by the fill of the same index where
/// there is one.
pub open spec fn interleaved(gaps: Seq<Seq<char>>, fills: Seq<Seq<char>>, n: nat) -> Seq<char>
    decreases n,
{
    if n == 0 || n > gaps.len() {
        Seq::empty()
    } else {
        let i = (n - 1) as int;
        interleaved(gaps, fills, (n - 1) as nat) + gaps[i] + if i < fills.len() {
            fills[i]
        } else {
            Seq::empty()
        }
    }
}

/// Joins the gaps of a text with what takes the place of its matches.
pub fn interleave(gaps: &Vec<String>, fills: &Vec<String>) -> (out: String)
    ensures
        out@ == interleaved(gaps.deep_view(), fills.deep_view(), gaps.len() as nat),
{
    let mut out = String::new();
    let mut i: usize = 0;
    while i < gaps.len()
        invariant
            i <= gaps.len(),
            out@ == interleaved(gaps.deep_view(), fills.deep_view(), i as nat),
        decreases gaps.len() - i,
    {
        out.append(gaps[i].as_str());
        if i < fills.len() {
            out.append(fills[i].as_str());
        }
        i += 1;
    }
    out
}

/// Each text set between an opening and a closing tag.
pub open spec fn wrapped_each(texts: Seq<Seq<char>>, open: Seq<char>, close: Seq<char>) -> Seq<
    Seq<char>,
> {
    Seq::new(texts.len(), |i: int| open + texts[i] + close)
}

/// Sets each text between an opening and a closing tag.
pub fn wrap_each(texts: &Vec<String>, open: &str, close: &str) -> (out: Vec<String>)
    ensures
        out.deep_view() == wrapped_each(texts.deep_view(), open@, close@),
{
    let mut out: Vec<String> = Vec::new();
    let mut i: usize = 0;
    while i < texts.len()
        invariant
            i <= texts.len(),
            out.len() == i,
            forall|j: int| 0 <= j < i ==> (#[trigger] out@[j])@ == open@ + texts@[j]@ + close@,
        decreases texts.len() - i,
    {
        let mut item = String::from_str(open);
        item.append(texts[i].as_str());
        item.append(close);
        out.push(item);
        i += 1;
    }
    out
}

/// A text in which every match of an emphasis pattern has given way to its
/// second group between the two tags.
pub open spec fn emphasised(
    text: Seq<char>,
    pattern: Seq<char>,
    open: Seq<char>,
    close: Seq<char>,
) -> Seq<char> {
    let gaps = regex_gaps(pattern, text);
    interleaved(gaps, wrapped_each(regex_groups(pattern, 2, text), open, close), gaps.len())
}

/// Replaces `**text**` by `text` in bold.
pub fn bold(text: &str) -> (html: String)
    ensures
        html@ == emphasised(text@, BOLD_PATTERN@, BOLD_OPEN@, BOLD_CLOSE@),
{
    assert(markup_group(BOLD_PATTERN@, 2));
    let gaps = pattern_gaps(BOLD_PATTERN, text);
    let groups = pattern_groups(BOLD_PATTERN, 2, text);
    let fills = wrap_each(&groups, BOLD_OPEN, BOLD_CLOSE);
    interleave(&gaps, &fills)
}

/// Replaces `*text*` by `text` in italics.
pub fn italic(text: &str) -> (html: String)
    ensures
        html@ == emphasised(text@, ITALIC_PATTERN@, ITALIC_OPEN@, ITALIC_CLOSE@),
{
    assert(markup_group(ITALIC_PATTERN@, 2));
    let gaps = pattern_gaps(ITALIC_PATTERN, text);
    let groups = pattern_groups(ITALIC_PATTERN, 2, text);
    let fills = wrap_each(&groups, ITALIC_OPEN, ITALIC_CLOSE);
    interleave(&gaps, &fills)
}

/// A text body escaped, quoted and with its bold and italic spans marked:
/// bold first, so that `**` is not taken for two italic marks.
pub open spec fn styled(body: Seq<char>) -> Seq<char> {
    emphasised(
        emphasised(quoted(body), BOLD_PATTERN@, BOLD_OPEN@, BOLD_CLOSE@),
        ITALIC_PATTERN@,
        ITALIC_OPEN@,
        ITALIC_CLOSE@,
    )
}

/// Turns a text body into HTML in which reply markers are still plain text.
pub fn style(body: &str) -> (html: String)
    ensures
        html@ == styled(body@),
{
    let lines = quote_lines(body);
    let strong = bold(lines.as_str());
    italic(strong.as_str())
}

/// A text as a URI path segment: what `RawStr::percent_encode` makes of it.
pub uninterp spec fn percent_encoded(text: Seq<char>) -> Seq<char>;

/// Calls rocket's `RawStr::percent_encode`, the encoding that rocket gives
/// a string set into a route's path.
#[verifier::external_body]
fn encode_segment(text: &str) -> (out: String)
    ensures
        out@ == percent_encoded(text@),
{
    rocket::http::RawStr::new(text).percent_encode().as_str().to_string()
}

/// The path of a thread's page.
pub open spec fn thread_path(board: Seq<char>, thread: i32) -> Seq<char> {
    seq!['/'] + percent_encoded(board) + seq!['/'] + decimal_text(thread as int)
}

/// The path of a thread's page, given the board's name as a path segment.
pub open spec fn path_in(segment: Seq<char>, thread: i32) -> Seq<char> {
    seq!['/'] + segment + seq!['/'] + decimal_text(thread as int)
}

/// Builds the path of a thread's page from the board's encoded name.
pub fn path_to_thread(segment: &str, thread: i32) -> (path: String)
    ensures
        path@ == path_in(segment@, thread),
{
    let mut path = String::new();
    path.push('/');
    path.append(segment);
    path.push('/');
    let number = decimal(thread);
    path.append(number.as_str());
    path
}

/// Builds the path of a thread's page.
pub fn thread_uri(board: &str, thread: i32) -> (path: String)
    ensures
        path@ == thread_path(board@, thread),
{
    let segment = encode_segment(board);
    path_to_thread(segment.as_str(), thread)
}

pub const LINK_OPEN: &'static str = "<a href=\"";

pub const LINK_ANCHOR: &'static str = "#";

pub const LINK_TEXT: &'static str = "\">&gt;&gt;";

pub const LINK_CLOSE: &'static str = "</a>";

pub const REPLY_MARK: &'static str = "&gt;&gt;";

/// The thread of the first row that has the given id. A row is the id of a
/// post and the id of its thread.
pub open spec fn thread_of(found: Seq<(i32, i32)>, id: i32) -> Option<i32>
    decreases found.len(),
{
    if found.len() == 0 {
        None
    } else if found[0].0 == id {
        Some(found[0].1)
    } else {
        thread_of(found.drop_first(), id)
    }
}

/// A link to a post: to its thread's page, anchored at the post, and shown
/// as the marker that was written.
pub open spec fn reply_link(path: Seq<char>, digits: Seq<char>) -> Seq<char> {
    LINK_OPEN@ + path + LINK_ANCHOR@ + digits + LINK_TEXT@ + digits + LINK_CLOSE@
}

/// What a reply marker with the given digits becomes: a link if the digits
/// name a post among the rows, else the marker as it was.
pub open spec fn reply_fill(digits: Seq<char>, segment: Seq<char>, found: Seq<(i32, i32)>) -> Seq<
    char,
> {
    match parsed_id(digits) {
        Some(id) => match thread_of(found, id) {
            Some(thread) => reply_link(path_in(segment, thread), digits),
            None => REPLY_MARK@ + digits,
        },
        None => REPLY_MARK@ + digits,
    }
}

/// What each reply marker becomes.
pub open spec fn reply_fills(
    groups: Seq<Seq<char>>,
    segment: Seq<char>,
    found: Seq<(i32, i32)>,
) -> Seq<Seq<char>> {
    Seq::new(groups.len(), |i: int| reply_fill(groups[i], segment, found))
}

/// Looks a post id up among the rows.
pub fn find_thread(found: &Vec<(i32, i32)>, id: i32) -> (thread: Option<i32>)
    ensures
        thread == thread_of(found@, id),
{
    let mut i: usize = 0;
    assert(found@.skip(0) == found@);
    while i < found.len()
        invariant
            i <= found.len(),
            thread_of(found@, id) == thread_of(found@.skip(i as int), id),
        decreases found.len() - i,
    {
        proof {
            let rest = found@.skip(i as int);
            assert(rest.drop_first() == found@.skip(i + 1));
        }
        if found[i].0 == id {
            return Some(found[i].1);
        }
        i += 1;
    }
    None
}

/// Writes what takes the place of each reply marker, given the digits of
/// each, the board's name as a path segment and the rows of the posts that
/// exist.
pub fn fill_replies(groups: &Vec<String>, segment: &str, found: &Vec<(i32, i32)>) -> (out: Vec<
    String,
>)
    ensures
        out.deep_view() == reply_fills(groups.deep_view(), segment@, found@),
{
    let mut out: Vec<String> = Vec::new();
    let mut i: usize = 0;
    while i < groups.len()
        invariant
            i <= groups.len(),
            out.len() == i,
            forall|j: int|
                0 <= j < i ==> (#[trigger] out@[j])@ == reply_fill(groups@[j]@, segment@, found@),
        decreases groups.len() - i,
    {
        let digits = groups[i].as_str();
        let target = match parse_id(digits) {
            Some(id) => find_thread(found, id),
            None => None,
        };
        let mut item = String::new();
        match target {
            Some(thread) => {
                let path = path_to_thread(segment, thread);
                item.append(LINK_OPEN);
                item.append(path.as_str());
                item.append(LINK_ANCHOR);
                item.append(digits);
                item.append(LINK_TEXT);
                item.append(digits);
                item.append(LINK_CLOSE);
            },
            None => {
                item.append(REPLY_MARK);
                item.append(digits);
            },
        }
        out.push(item);
        i += 1;
    }
    out
}

/// The post ids that a run of digit texts denotes, in order; a text that
/// denotes none is left out.
pub open spec fn parsed_ids(groups: Seq<Seq<char>>) -> Seq<i32>
    decreases groups.len(),
{
    if groups.len() == 0 {
        Seq::empty()
    } else {
        match parsed_id(groups.last()) {
            Some(id) => parsed_ids(groups.drop_last()).push(id),
            None => parsed_ids(groups.drop_last()),
        }
    }
}

/// Reads the post ids out of the digits of the reply markers.
pub fn candidates_from(groups: &Vec<String>) -> (ids: Vec<i32>)
    ensures
        ids@ == parsed_ids(groups.deep_view()),
{
    let mut ids: Vec<i32> = Vec::new();
    let mut i: usize = 0;
    while i < groups.len()
        invariant
            i <= groups.len(),
            ids@ == parsed_ids(groups.deep_view().take(i as int)),
        decreases groups.len() - i,
    {
        proof {
            let upto = groups.deep_view().take(i + 1);
            assert(upto.drop_last() == groups.deep_view().take(i as int));
        }
        match parse_id(groups[i].as_str()) {
            Some(id) => ids.push(id),
            None => {},
        }
        i += 1;
    }
    proof {
        assert(groups.deep_view().take(i as int) == groups.deep_view());
    }
    ids
}

/// The post ids that the reply markers of a styled text name.
pub open spec fn candidates(html: Seq<char>) -> Seq<i32> {
    parsed_ids(regex_groups(REPLY_PATTERN@, 1, html))
}

/// Finds the post ids that the reply markers of a styled text name.
pub fn reply_candidates(html: &str) -> (ids: Vec<i32>)
    ensures
        ids@ == candidates(html@),
{
    let groups = pattern_groups(REPLY_PATTERN, 1, html);
    candidates_from(&groups)
}

/// A styled text in which each reply marker that names a post among the
/// rows has become a link to it.
pub open spec fn linked(html: Seq<char>, board: Seq<char>, found: Seq<(i32, i32)>) -> Seq<char> {
    let gaps = regex_gaps(REPLY_PATTERN@, html);
    interleaved(
        gaps,
        reply_fills(regex_groups(REPLY_PATTERN@, 1, html), percent_encoded(board), found),
        gaps.len(),
    )
}

/// Turns the reply markers of a styled text into links, where the rows
/// hold the post that a marker names.
pub fn link_replies(html: &str, board: &str, found: &Vec<(i32, i32)>) -> (out: String)
    ensures
        out@ == linked(html@, board@, found@),
{
    assert(markup_group(REPLY_PATTERN@, 1));
    let gaps = pattern_gaps(REPLY_PATTERN, html);
    let groups = pattern_groups(REPLY_PATTERN, 1, html);
    let segment = encode_segment(board);
    let fills = fill_replies(&groups, segment.as_str(), found);
    interleave(&gaps, &fills)
}

} // verus!
