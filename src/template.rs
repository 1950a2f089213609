//! Command templates: shell command text with `{{query}}` placeholders that are
//! filled from a JSON request body.
//!
//! No shell escaping is done: the text that a query selects is spliced into the
//! command as it is, so a body that an attacker controls can inject shell syntax.
//! This is the engine's documented behaviour, kept on purpose.

use crate::json::{join_lines, json_of, lines_to_string, render_items, value_of, JsonValue};
use vstd::prelude::*;

verus! {

pub open spec fn opens_at(s: Seq<char>, i: int) -> bool {
    0 <= i && i + 1 < s.len() && s[i] == '{' && s[i + 1] == '{'
}

pub open spec fn closes_at(s: Seq<char>, j: int) -> bool {
    0 <= j && j + 1 < s.len() && s[j] == '}' && s[j + 1] == '}'
}

/// Index of the first `}}` at or after `k`, provided that no line break comes
/// before it: a placeholder's query stays on one line.
pub open spec fn find_close(s: Seq<char>, k: int) -> Option<int>
    decreases s.len() - k,
{
    if k < 0 || k + 1 >= s.len() {
        None
    } else if closes_at(s, k) {
        Some(k)
    } else if s[k] == '\n' {
        None
    } else {
        find_close(s, k + 1)
    }
}

/// The end (exclusive) of the placeholder that opens at `i`, if one does: the
/// first `}}` after the opening `{{` closes it.
pub open spec fn placeholder_end(s: Seq<char>, i: int) -> Option<int> {
    if opens_at(s, i) {
        match find_close(s, i + 2) {
            Some(j) => Some(j + 2),
            None => None,
        }
    } else {
        None
    }
}

/// The placeholder spans of `s` at or after `p`: leftmost first, each one
/// starting the search for the next where it ends.
pub open spec fn scan(s: Seq<char>, p: int) -> Seq<(int, int)>
    decreases s.len() - p,
{
    if p < 0 || p >= s.len() {
        Seq::empty()
    } else {
        match placeholder_end(s, p) {
            Some(e) => if p < e <= s.len() {
                seq![(p, e)] + scan(s, e)
            } else {
                Seq::empty()
            },
            None => scan(s, p + 1),
        }
    }
}

/// The query text inside a placeholder span.
pub open spec fn query_of(s: Seq<char>, span: (int, int)) -> Seq<char> {
    s.subrange(span.0 + 2, span.1 - 2)
}

/// Where the literal text before span `k` starts.
pub open spec fn gap_start(spans: Seq<(int, int)>, k: int) -> int {
    if k <= 0 {
        0
    } else {
        spans[k - 1].1
    }
}

/// The output up to the end of span `k - 1`.
pub open spec fn splice_prefix(
    s: Seq<char>,
    spans: Seq<(int, int)>,
    subs: Seq<Seq<char>>,
    k: nat,
) -> Seq<char>
    decreases k,
{
    if k == 0 {
        Seq::empty()
    } else {
        splice_prefix(s, spans, subs, (k - 1) as nat) + s.subrange(
            gap_start(spans, k - 1),
            spans[k - 1].0,
        ) + subs[k - 1]
    }
}

/// `s` with span `k` replaced by `subs[k]`, for each `k`; all other text verbatim.
pub open spec fn splice(s: Seq<char>, spans: Seq<(int, int)>, subs: Seq<Seq<char>>) -> Seq<char> {
    splice_prefix(s, spans, subs, spans.len()) + s.subrange(
        gap_start(spans, spans.len() as int),
        s.len() as int,
    )
}

pub open spec fn spans_view(v: Seq<(usize, usize)>) -> Seq<(int, int)> {
    v.map_values(|x: (usize, usize)| (x.0 as int, x.1 as int))
}

pub open spec fn strings_view(v: Seq<String>) -> Seq<Seq<char>> {
    v.map_values(|x: String| x@)
}

proof fn lemma_find_close_bounds(s: Seq<char>, k: int)
    ensures
        find_close(s, k) matches Some(j) ==> k <= j && closes_at(s, j),
    decreases s.len() - k,
{
    if !(k < 0 || k + 1 >= s.len()) && !closes_at(s, k) && s[k] != '\n' {
        lemma_find_close_bounds(s, k + 1);
    }
}

/// Each span of `scan(s, p)` opens with `{{` and closes with `}}` within `s`,
/// and the spans are in order without overlap.
pub proof fn lemma_scan_shape(s: Seq<char>, p: int)
    requires
        0 <= p,
    ensures
        forall|k: int|
            0 <= k < scan(s, p).len() ==> {
                let sp = #[trigger] scan(s, p)[k];
                &&& p <= sp.0
                &&& sp.0 + 4 <= sp.1 <= s.len()
                &&& opens_at(s, sp.0)
                &&& closes_at(s, sp.1 - 2)
            },
        forall|k: int| 1 <= k < scan(s, p).len() ==> scan(s, p)[k - 1].1 <= #[trigger] scan(s, p)[k].0,
    decreases s.len() - p,
{
    if p >= s.len() {
    } else {
        match placeholder_end(s, p) {
            Some(e) => {
                lemma_find_close_bounds(s, p + 2);
                assert(p + 4 <= e <= s.len());
                if p < e <= s.len() {
                    lemma_scan_shape(s, e);
                    let rest = scan(s, e);
                    assert(scan(s, p) == seq![(p, e)] + rest);
                    assert(scan(s, p)[0] == (p, e));
                    assert(opens_at(s, p));
                    assert(closes_at(s, e - 2));
                    assert forall|k: int| 1 <= k < scan(s, p).len() implies scan(s, p)[k - 1].1
                        <= #[trigger] scan(s, p)[k].0 by {
                        assert(scan(s, p)[k] == rest[k - 1]);
                        if k > 1 {
                            assert(scan(s, p)[k - 1] == rest[k - 2]);
                        } else {
                            assert(e <= rest[0].0);
                        }
                    }
                    assert forall|k: int| 0 <= k < scan(s, p).len() implies {
                        let sp = #[trigger] scan(s, p)[k];
                        &&& p <= sp.0
                        &&& sp.0 + 4 <= sp.1 <= s.len()
                        &&& opens_at(s, sp.0)
                        &&& closes_at(s, sp.1 - 2)
                    } by {
                        if k > 0 {
                            assert(scan(s, p)[k] == rest[k - 1]);
                            let sp = rest[k - 1];
                            assert(e <= sp.0);
                        }
                    }
                }
            },
            None => {
                lemma_scan_shape(s, p + 1);
                assert(scan(s, p) == scan(s, p + 1));
            },
        }
    }
}

/// A template without placeholders evaluates to its source text, whatever the
/// substitutions.
pub proof fn lemma_no_placeholders_verbatim(s: Seq<char>, subs: Seq<Seq<char>>)
    requires
        scan(s, 0).len() == 0,
    ensures
        splice(s, scan(s, 0), subs) == s,
{
    assert(s.subrange(0, s.len() as int) =~= s);
}

/// Text with no `{{` in it has no placeholders.
pub proof fn lemma_no_opening_no_placeholders(s: Seq<char>, p: int)
    requires
        0 <= p,
        forall|i: int| 0 <= i < s.len() ==> !opens_at(s, i),
    ensures
        scan(s, p).len() == 0,
    decreases s.len() - p,
{
    if p < s.len() {
        lemma_no_opening_no_placeholders(s, p + 1);
    }
}

/// A compiled command: its source text and the spans (character offsets,
/// end exclusive) of its `{{query}}` placeholders.
pub struct CommandTemplate {
    src: String,
    matches: Vec<(usize, usize)>,
}

impl CommandTemplate {
    #[verifier::type_invariant]
    spec fn well_formed(&self) -> bool {
        &&& spans_view(self.matches@) == scan(self.src@, 0)
        &&& self.src@.len() <= usize::MAX
    }

    /// The source text.
    pub closed spec fn source(&self) -> Seq<char> {
        self.src@
    }

    /// The placeholder spans of the source.
    pub closed spec fn spans(&self) -> Seq<(int, int)> {
        spans_view(self.matches@)
    }

    /// Compiles `command`, finding every placeholder in it.
    pub fn new(command: &str) -> (r: Self)
        ensures
            r.source() == command@,
            r.spans() == scan(command@, 0),
    {
        let chars = chars_of(command);
        let n = chars.len();
        let mut matches: Vec<(usize, usize)> = Vec::new();
        let mut p: usize = 0;
        while p < n
            invariant
                n == chars@.len(),
                chars@ == command@,
                p <= n,
                spans_view(matches@) + scan(chars@, p as int) == scan(chars@, 0),
            decreases n - p,
        {
            let ghost s = chars@;
            if p + 1 < n && chars[p] == '{' && chars[p + 1] == '{' {
                match find_close_in(&chars, p + 2) {
                    Some(j) => {
                        proof {
                            lemma_find_close_bounds(s, p + 2);
                            assert(scan(s, p as int) == seq![(p as int, j + 2)] + scan(s, j + 2));
                            assert(spans_view(matches@.push((p, (j + 2) as usize))) =~= spans_view(matches@)
                                + seq![(p as int, j + 2)]);
                        }
                        matches.push((p, j + 2));
                        p = j + 2;
                    },
                    None => {
                        assert(scan(s, p as int) == scan(s, p + 1));
                        p = p + 1;
                    },
                }
            } else {
                assert(scan(s, p as int) == scan(s, p + 1));
                p = p + 1;
            }
        }
        assert(spans_view(matches@) + scan(chars@, p as int) =~= spans_view(matches@));
        let src = String::from_str(command);
        CommandTemplate { src, matches }
    }

    /// The source with each placeholder replaced by the value at its position
    /// in `values`, and all text outside placeholders kept verbatim.
    pub fn evaluate_with(&self, values: &Vec<String>) -> (r: String)
        requires
            values.len() == self.spans().len(),
        ensures
            self.spans() == scan(self.source(), 0),
            r@ == splice(self.source(), self.spans(), strings_view(values@)),
    {
        proof {
            use_type_invariant(self);
            lemma_scan_shape(self.src@, 0);
        }
        let ghost s = self.src@;
        let ghost spans = self.spans();
        let ghost subs = strings_view(values@);
        let src = self.src.as_str();
        let n = src.unicode_len();
        let mut out = String::new();
        let mut last: usize = 0;
        let mut k: usize = 0;
        while k < self.matches.len()
            invariant
                s == self.src@,
                spans == self.spans(),
                spans == scan(s, 0),
                subs == strings_view(values@),
                src@ == s,
                n == s.len(),
                values.len() == spans.len(),
                k <= spans.len(),
                last == gap_start(spans, k as int),
                out@ == splice_prefix(s, spans, subs, k as nat),
                forall|i: int|
                    0 <= i < scan(s, 0).len() ==> {
                        let sp = #[trigger] scan(s, 0)[i];
                        &&& 0 <= sp.0
                        &&& sp.0 + 4 <= sp.1 <= s.len()
                    },
                forall|i: int| 1 <= i < scan(s, 0).len() ==> scan(s, 0)[i - 1].1 <= #[trigger] scan(s, 0)[i].0,
            decreases spans.len() - k,
        {
            let (start, end) = self.matches[k];
            assert(spans[k as int] == (start as int, end as int));
            if k > 0 {
                assert(spans[k - 1].1 <= spans[k as int].0);
            }
            let gap = src.substring_char(last, start);
            out.append(gap);
            out.append(values[k].as_str());
            last = end;
            k = k + 1;
        }
        let tail = src.substring_char(last, n);
        out.append(tail);
        out
    }

    /// Evaluates the template against a request body: each placeholder's query
    /// is run on `json` and replaced by the text of what it selects (empty where
    /// the query is malformed or selects nothing). Evaluation never fails.
    pub fn evaluate(&self, json: &JsonValue) -> (r: String)
        ensures
            self.spans() == scan(self.source(), 0),
            r@ == splice(self.source(), self.spans(), substitutions(self.source(), self.spans(), *json)),
    {
        proof {
            use_type_invariant(self);
            lemma_scan_shape(self.src@, 0);
        }
        let ghost s = self.src@;
        let ghost subs = substitutions(s, self.spans(), *json);
        let src = self.src.as_str();
        let mut values: Vec<String> = Vec::new();
        let mut k: usize = 0;
        while k < self.matches.len()
            invariant
                s == self.src@,
                src@ == s,
                self.spans() == scan(s, 0),
                subs == substitutions(s, self.spans(), *json),
                values.len() == k,
                k <= self.matches.len(),
                forall|i: int| 0 <= i < k ==> #[trigger] values@[i]@ == subs[i],
                forall|i: int|
                    0 <= i < scan(s, 0).len() ==> {
                        let sp = #[trigger] scan(s, 0)[i];
                        &&& 0 <= sp.0
                        &&& sp.0 + 4 <= sp.1 <= s.len()
                    },
            decreases self.matches.len() - k,
        {
            let (start, end) = self.matches[k];
            assert(self.spans()[k as int] == (start as int, end as int));
            let query = src.substring_char(start + 2, end - 2);
            let text = evaluate_path(query, json);
            values.push(text);
            assert(values@[k as int]@ == subs[k as int]);
            k = k + 1;
        }
        let r = self.evaluate_with(&values);
        assert(strings_view(values@) =~= subs);
        r
    }
}

/// The text that each placeholder of `s` (at `spans`) is replaced by when the
/// template is evaluated on `body`.
pub open spec fn substitutions(s: Seq<char>, spans: Seq<(int, int)>, body: JsonValue) -> Seq<
    Seq<char>,
> {
    Seq::new(spans.len(), |k: int| selection_text(query_result(query_of(s, spans[k]), body)))
}

/// The characters of `s`, in order.
fn chars_of(s: &str) -> (r: Vec<char>)
    ensures
        r@ == s@,
{
    let n = s.unicode_len();
    let mut r: Vec<char> = Vec::new();
    let mut i: usize = 0;
    while i < n
        invariant
            n == s@.len(),
            i <= n,
            r@ == s@.take(i as int),
        decreases n - i,
    {
        r.push(s.get_char(i));
        assert(s@.take(i + 1) =~= s@.take(i as int).push(s@[i as int]));
        i = i + 1;
    }
    assert(s@.take(n as int) =~= s@);
    r
}

/// The index of the `}}` that closes a placeholder whose query starts at `k`.
fn find_close_in(chars: &Vec<char>, k: usize) -> (r: Option<usize>)
    requires
        k <= chars.len(),
    ensures
        match r {
            Some(j) => find_close(chars@, k as int) == Some(j as int),
            None => find_close(chars@, k as int) is None,
        },
{
    let n = chars.len();
    let mut i: usize = k;
    while i < n && n - i > 1
        invariant
            n == chars@.len(),
            k <= i <= n,
            find_close(chars@, k as int) == find_close(chars@, i as int),
        decreases n - i,
    {
        if chars[i] == '}' && chars[i + 1] == '}' {
            return Some(i);
        }
        if chars[i] == '\n' {
            return None;
        }
        i = i + 1;
    }
    None
}

/// The text of a query's selection: the texts of the selected values one per
/// line; empty where the query did not parse or selected nothing.
pub open spec fn selection_text(selection: Option<Seq<JsonValue>>) -> Seq<char> {
    match selection {
        Some(values) => join_lines(render_items(values)),
        None => Seq::empty(),
    }
}

/// A query that does not parse, or that selects nothing, is replaced by empty
/// text.
pub proof fn lemma_failed_query_is_empty()
    ensures
        selection_text(None) == Seq::<char>::empty(),
        selection_text(Some(Seq::empty())) == Seq::<char>::empty(),
{
    assert(render_items(Seq::<JsonValue>::empty()) =~= Seq::<Seq<char>>::empty());
}

/// A template with one placeholder whose query is malformed, or selects
/// nothing, evaluates to the literal text around the placeholder.
pub proof fn lemma_failed_placeholder_leaves_literals(s: Seq<char>, body: JsonValue)
    requires
        scan(s, 0).len() == 1,
        query_result(query_of(s, scan(s, 0)[0]), body) is None
            || query_result(query_of(s, scan(s, 0)[0]), body) == Some(Seq::<JsonValue>::empty()),
    ensures
        splice(s, scan(s, 0), substitutions(s, scan(s, 0), body)) == s.subrange(0, scan(s, 0)[0].0)
            + s.subrange(scan(s, 0)[0].1, s.len() as int),
{
    lemma_failed_query_is_empty();
    let spans = scan(s, 0);
    let subs = substitutions(s, spans, body);
    assert(subs[0] == Seq::<char>::empty());
    assert(splice_prefix(s, spans, subs, 0) == Seq::<char>::empty());
    assert(splice_prefix(s, spans, subs, 1) =~= s.subrange(0, spans[0].0));
}

pub fn render_selection(selection: &Option<Vec<JsonValue>>) -> (r: String)
    ensures
        r@ == selection_text(
            match selection {
                Some(values) => Some(values@),
                None => None,
            },
        ),
        selection matches Some(values) && values.len() == 0 ==> r@.len() == 0,
{
    match selection {
        None => String::new(),
        Some(values) => lines_to_string(values),
    }
}

/// The values that a jsonpath query selects in `body`, in document order, or
/// `None` where the query does not parse.
pub uninterp spec fn selection_of(query: Seq<char>, body: JsonValue) -> Option<Seq<JsonValue>>;

pub open spec fn is_digit(c: char) -> bool {
    '0' <= c <= '9'
}

/// A filter `[?(` opens at `i`.
pub open spec fn filter_opens_at(q: Seq<char>, i: int) -> bool {
    0 <= i && i + 3 <= q.len() && q[i] == '[' && q[i + 1] == '?' && q[i + 2] == '('
}

/// The position of a filter's comparison operator, searching from `k` at
/// bracket nesting `depth`: the first `<`, `>`, `=` or `!` outside nested
/// brackets, before the filter's own closing bracket.
pub open spec fn comparison_at(q: Seq<char>, k: int, depth: nat) -> Option<int>
    decreases q.len() - k,
{
    if k < 0 || k >= q.len() {
        None
    } else if q[k] == '[' {
        comparison_at(q, k + 1, depth + 1)
    } else if q[k] == ']' {
        if depth == 0 {
            None
        } else {
            comparison_at(q, k + 1, (depth - 1) as nat)
        }
    } else if depth == 0 && (q[k] == '<' || q[k] == '>' || q[k] == '=' || q[k] == '!') {
        Some(k)
    } else {
        comparison_at(q, k + 1, depth)
    }
}

/// The first position at or after `k` that is not a space.
pub open spec fn after_spaces(q: Seq<char>, k: int) -> int
    decreases q.len() - k,
{
    if 0 <= k < q.len() && q[k] == ' ' {
        after_spaces(q, k + 1)
    } else {
        k
    }
}

/// The end of the run of digits that starts at `k`.
pub open spec fn digits_end(q: Seq<char>, k: int) -> int
    decreases q.len() - k,
{
    if 0 <= k < q.len() && is_digit(q[k]) {
        digits_end(q, k + 1)
    } else {
        k
    }
}

/// The number that decimal digits spell.
pub open spec fn digits_value(d: Seq<char>) -> int
    decreases d.len(),
{
    if d.len() == 0 {
        0
    } else {
        digits_value(d.drop_last()) * 10 + ((d.last() as u32) as int - 48)
    }
}

/// The filter that opens at `i` compares with an integer beyond the 64-bit
/// signed range, which the query parser cannot hold.
pub open spec fn overflowing_number_at(q: Seq<char>, i: int) -> bool {
    &&& filter_opens_at(q, i)
    &&& match comparison_at(q, i + 3, 0) {
        Some(p) => {
            let a = after_spaces(q, if q[p] == '<' || q[p] == '>' { p + 1 } else { p + 2 });
            let b = digits_end(q, a);
            &&& a < b
            &&& !(b < q.len() && q[b] == '.')
            &&& digits_value(q.subrange(a, b)) > i64::MAX
        },
        None => false,
    }
}

/// The filter that opens at `i` starts from the root (`$`) and compares with
/// `<` or `>`, which the query engine does not implement.
pub open spec fn rooted_order_filter_at(q: Seq<char>, i: int) -> bool {
    &&& filter_opens_at(q, i)
    &&& i + 3 < q.len()
    &&& q[i + 3] == '$'
    &&& match comparison_at(q, i + 3, 0) {
        Some(p) => q[p] == '<' || q[p] == '>',
        None => false,
    }
}

pub open spec fn unrunnable_at(q: Seq<char>, i: int) -> bool {
    overflowing_number_at(q, i) || rooted_order_filter_at(q, i)
}

/// A query that the query engine cannot run: a filter with an integer beyond
/// the 64-bit range, or a root-based filter ordered with `<` or `>`. Where such
/// a query parses, every selection through it evaluates that filter, so it
/// can give nothing; it is treated as malformed.
pub open spec fn is_unrunnable(q: Seq<char>) -> bool {
    exists|i: int| unrunnable_at(q, i)
}

/// What a placeholder's query gives on `body`; an unrunnable query gives `None`.
pub open spec fn query_result(query: Seq<char>, body: JsonValue) -> Option<Seq<JsonValue>> {
    if is_unrunnable(query) {
        None
    } else {
        selection_of(query, body)
    }
}

fn comparison_in(q: &Vec<char>, k: usize) -> (r: Option<usize>)
    requires
        k <= q.len(),
    ensures
        match r {
            Some(p) => comparison_at(q@, k as int, 0) == Some(p as int) && p < q.len(),
            None => comparison_at(q@, k as int, 0) is None,
        },
{
    let n = q.len();
    let mut i: usize = k;
    let mut depth: usize = 0;
    while i < n
        invariant
            n == q@.len(),
            k <= i <= n,
            depth <= i,
            comparison_at(q@, k as int, 0) == comparison_at(q@, i as int, depth as nat),
        decreases n - i,
    {
        let c = q[i];
        if c == '[' {
            depth = depth + 1;
        } else if c == ']' {
            if depth == 0 {
                return None;
            }
            depth = depth - 1;
        } else if depth == 0 && (c == '<' || c == '>' || c == '=' || c == '!') {
            return Some(i);
        }
        i = i + 1;
    }
    None
}

fn after_spaces_in(q: &Vec<char>, k: usize) -> (r: usize)
    ensures
        r == after_spaces(q@, k as int),
{
    let mut i: usize = k;
    while i < q.len() && q[i] == ' '
        invariant
            k <= i,
            after_spaces(q@, k as int) == after_spaces(q@, i as int),
        decreases q.len() - i,
    {
        i = i + 1;
    }
    i
}

/// The end of the digit run at `k`, and its value capped at 2^63.
fn digit_run_in(q: &Vec<char>, k: usize) -> (r: (usize, u128))
    ensures
        r.0 == digits_end(q@, k as int),
        k <= r.0,
        r.0 > k ==> r.0 <= q.len() && r.1 == if digits_value(q@.subrange(k as int, r.0 as int))
            > i64::MAX {
            i64::MAX as int + 1
        } else {
            digits_value(q@.subrange(k as int, r.0 as int))
        },
{
    let cap: u128 = 9223372036854775808;
    let mut i: usize = k;
    let mut v: u128 = 0;
    while i < q.len() && '0' <= q[i] && q[i] <= '9'
        invariant
            k <= i,
            i > k ==> i <= q.len(),
            digits_end(q@, k as int) == digits_end(q@, i as int),
            i > k ==> v == if digits_value(q@.subrange(k as int, i as int)) > i64::MAX {
                cap as int
            } else {
                digits_value(q@.subrange(k as int, i as int))
            },
            i == k ==> v == 0,
            cap == 9223372036854775808u128,
            v <= cap,
            forall|j: int| k <= j < i ==> is_digit(#[trigger] q@[j]),
        decreases q.len() - i,
    {
        let d = (q[i] as u32 - 48) as u128;
        proof {
            let sub = q@.subrange(k as int, i + 1);
            assert(sub.drop_last() =~= q@.subrange(k as int, i as int));
            assert(sub.last() == q@[i as int]);
            if i == k {
                assert(q@.subrange(k as int, i as int) =~= Seq::<char>::empty());
            }
            lemma_digits_value_nonneg(q@.subrange(k as int, i as int));
        }
        v = v * 10 + d;
        if v > cap {
            v = cap;
        }
        i = i + 1;
    }
    (i, v)
}

proof fn lemma_digits_value_nonneg(d: Seq<char>)
    requires
        forall|j: int| 0 <= j < d.len() ==> is_digit(#[trigger] d[j]),
    ensures
        digits_value(d) >= 0,
    decreases d.len(),
{
    if d.len() > 0 {
        lemma_digits_value_nonneg(d.drop_last());
    }
}

fn unrunnable_at_in(q: &Vec<char>, i: usize) -> (r: bool)
    requires
        i <= q.len(),
    ensures
        r == unrunnable_at(q@, i as int),
{
    let n = q.len();
    if !(n - i >= 3 && q[i] == '[' && q[i + 1] == '?' && q[i + 2] == '(') {
        return false;
    }
    match comparison_in(q, i + 3) {
        None => false,
        Some(p) => {
            let c = q[p];
            let ordered = c == '<' || c == '>';
            if ordered && n - i > 3 && q[i + 3] == '$' {
                return true;
            }
            if !ordered && p + 1 >= n {
                return false;
            }
            let a = after_spaces_in(q, if ordered { p + 1 } else { p + 2 });
            let (b, v) = digit_run_in(q, a);
            if b > a && !(b < n && q[b] == '.') && v > 9223372036854775807 {
                true
            } else {
                assert(!overflowing_number_at(q@, i as int));
                false
            }
        },
    }
}

/// Whether `query` is unrunnable.
fn unrunnable(query: &str) -> (r: bool)
    ensures
        r == is_unrunnable(query@),
{
    let q = chars_of(query);
    let n = q.len();
    let mut i: usize = 0;
    while i < n
        invariant
            n == q@.len(),
            q@ == query@,
            i <= n,
            forall|j: int| 0 <= j < i ==> !unrunnable_at(q@, j),
        decreases n - i,
    {
        if unrunnable_at_in(&q, i) {
            return true;
        }
        i = i + 1;
    }
    assert forall|j: int| !unrunnable_at(q@, j) by {
        if j >= n {
            assert(!filter_opens_at(q@, j));
        }
    }
    false
}

/// Runs one placeholder's query against the body and renders what it selects.
pub fn evaluate_path(query: &str, json: &JsonValue) -> (r: String)
    ensures
        r@ == selection_text(query_result(query@, *json)),
{
    let selection = if unrunnable(query) {
        None
    } else {
        select(query, json)
    };
    let r = render_selection(&selection);
    proof {
        let sel = match selection {
            Some(values) => Some(values@),
            None => None,
        };
        assert(sel == query_result(query@, *json));
    }
    r
}

/// Relies on jsonpath's `Selector::new` (a query that does not parse gives
/// `None`; it panics where a filter's integer overflows `i64`) and
/// `Selector::find` (the selected values in document order; it panics on a
/// root-based filter ordered with `<` or `>`). Both depend on the query and
/// the body alone.
#[verifier::external_body]
fn select(query: &str, json: &JsonValue) -> (r: Option<Vec<JsonValue>>)
    requires
        !is_unrunnable(query@),
    ensures
        match r {
            Some(values) => selection_of(query@, *json) == Some(values@),
            None => selection_of(query@, *json) is None,
        },
{
    let selector = jsonpath::Selector::new(query).ok()?;
    let root = value_of(json);
    Some(selector.find(&root).map(json_of).collect())
}

} // verus!
