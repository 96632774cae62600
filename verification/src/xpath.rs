use crate::pattern::{captures, groups_view, regex_captures};
use crate::text::{chars_of, owned_range, same_text};
use vstd::prelude::*;

verus! {

/// One step of an instance path: an optional module prefix, a node name and the list-key
/// predicates that follow it, in the order in which they were written.
#[derive(Debug, Clone, PartialEq, Eq)]
pub struct PathSegment {
    pub namespace: Option<String>,
    pub name: String,
    pub predicates: Vec<(String, String)>,
}

/// The mathematical content of a [`PathSegment`].
pub struct SegmentView {
    pub namespace: Option<Seq<char>>,
    pub name: Seq<char>,
    pub predicates: Seq<(Seq<char>, Seq<char>)>,
}

/// Why an instance path could not be split.
#[derive(Debug, Clone, Copy, PartialEq, Eq, Structural)]
pub enum ParseError {
    /// The path is the empty string.
    Empty,
    /// A `[` opens a predicate and no `=` follows anywhere after it.
    MissingEquals,
    /// A predicate value is opened by a quote that never comes again.
    UnterminatedPredicate,
}

/// The texts of a list of key and value pairs.
pub open spec fn predicates_view(pairs: Seq<(String, String)>) -> Seq<(Seq<char>, Seq<char>)> {
    Seq::new(pairs.len(), |i: int| (pairs[i].0@, pairs[i].1@))
}

impl View for PathSegment {
    type V = SegmentView;

    open spec fn view(&self) -> SegmentView {
        SegmentView {
            namespace: match self.namespace {
                Some(prefix) => Some(prefix@),
                None => None,
            },
            name: self.name@,
            predicates: predicates_view(self.predicates@),
        }
    }
}

/// The contents of a list of segments.
pub open spec fn segments_view(segments: Seq<PathSegment>) -> Seq<SegmentView> {
    Seq::new(segments.len(), |i: int| segments[i]@)
}

/// The pattern that reads the head of a segment: an optional prefix closed by a colon, then
/// the name, which may hold the wildcard `*`.
pub const ELEMENT_PATTERN: &'static str = r"^(?:(?P<prefix>[-\w]+):)?(?P<name>[-\w\*]+)";

/// The text of the element pattern.
pub open spec fn element_pattern() -> Seq<char> {
    ELEMENT_PATTERN@
}

/// What the element pattern found at the start of a text: how many characters the whole
/// match covers, the prefix if there is one, and the name.
pub struct ElementMatch {
    pub len: int,
    pub namespace: Option<Seq<char>>,
    pub name: Seq<char>,
}

/// Reads a match of the element pattern out of its capture groups. `available` is the number
/// of characters that were searched. There is a match only if the groups are the three of the
/// pattern, the whole match and the name took part, and the whole match is not empty and not
/// longer than the text.
pub open spec fn element_from_groups(groups: Seq<Option<Seq<char>>>, available: int) -> Option<
    ElementMatch,
> {
    if groups.len() == 3 && groups[0] is Some && groups[2] is Some && 0 < groups[0]->0.len()
        <= available {
        Some(ElementMatch { len: groups[0]->0.len() as int, namespace: groups[1], name: groups[2]->0 })
    } else {
        None
    }
}

/// The match of the element pattern on the text of `s` from `start` on, if there is one.
pub open spec fn element_at(s: Seq<char>, start: int) -> Option<ElementMatch> {
    match regex_captures(element_pattern(), s.subrange(start, s.len() as int)) {
        Some(groups) => element_from_groups(groups, s.len() - start),
        None => None,
    }
}

/// Whether `c` is encoded in one byte.
pub open spec fn single_byte(c: char) -> bool {
    (c as u32) < 0x80
}

/// The first position at or after `from` at which `s` holds `c`, or the length of `s` if
/// there is none.
pub open spec fn find_char(s: Seq<char>, c: char, from: int) -> int
    decreases s.len() - from,
{
    if from < 0 || from >= s.len() {
        s.len() as int
    } else if s[from] == c {
        from
    } else {
        find_char(s, c, from + 1)
    }
}

/// The predicates written in `s` from position `i` on, and the position behind the last of
/// them.
///
/// A predicate is a `[`, a key that runs up to the next `=`, one character that opens the
/// value, the value up to the next occurrence of that same character, and one closing
/// character behind it. `Some(Err(..))` where the `=` or the closing quote is missing. `None`
/// where no result is defined: the character that opens the value, or the one behind its
/// closing quote, is missing or takes more than one byte.
pub open spec fn predicates_from(s: Seq<char>, i: int) -> Option<
    Result<(Seq<(Seq<char>, Seq<char>)>, int), ParseError>,
>
    decreases s.len() - i,
    when 0 <= i
    via predicates_from_decreases
{
    if !(i < s.len() && s[i] == '[') {
        Some(Ok((Seq::empty(), i)))
    } else {
        let eq = find_char(s, '=', i + 1);
        if eq >= s.len() {
            Some(Err(ParseError::MissingEquals))
        } else if eq + 1 >= s.len() || !single_byte(s[eq + 1]) {
            None
        } else {
            let close = find_char(s, s[eq + 1], eq + 2);
            if close >= s.len() {
                Some(Err(ParseError::UnterminatedPredicate))
            } else if close + 1 >= s.len() || !single_byte(s[close + 1]) {
                None
            } else {
                match predicates_from(s, close + 2) {
                    Some(Ok((rest, end))) => Some(
                        Ok((seq![(s.subrange(i + 1, eq), s.subrange(eq + 2, close))] + rest, end)),
                    ),
                    other => other,
                }
            }
        }
    }
}

#[via_fn]
proof fn predicates_from_decreases(s: Seq<char>, i: int) {
    if i < s.len() && s[i] == '[' {
        let eq = find_char(s, '=', i + 1);
        lemma_find_char_bounds(s, '=', i + 1);
        if eq + 1 < s.len() {
            lemma_find_char_bounds(s, s[eq + 1], eq + 2);
        }
    }
}

/// `find_char` answers with a position between `from` and the length, and `c` stands at none
/// of the positions that it passed.
proof fn lemma_find_char_bounds(s: Seq<char>, c: char, from: int)
    requires
        0 <= from <= s.len(),
    ensures
        from <= find_char(s, c, from) <= s.len(),
        find_char(s, c, from) < s.len() ==> s[find_char(s, c, from)] == c,
        forall|j: int| from <= j < find_char(s, c, from) ==> s[j] != c,
    decreases s.len() - from,
{
    if from < s.len() && s[from] != c {
        lemma_find_char_bounds(s, c, from + 1);
    }
}

/// The segment whose head the element pattern read at `start` as `element`, and the position
/// behind the segment's predicates. `None` where no result is defined: there is no element,
/// or the predicates behind it have none.
pub open spec fn segment_after(s: Seq<char>, start: int, element: Option<ElementMatch>) -> Option<
    Result<(SegmentView, int), ParseError>,
> {
    match element {
        None => None,
        Some(m) => match predicates_from(s, start + m.len) {
            None => None,
            Some(Err(e)) => Some(Err(e)),
            Some(Ok((predicates, end))) => Some(
                Ok((SegmentView { namespace: m.namespace, name: m.name, predicates }, end)),
            ),
        },
    }
}

/// The segment that starts at `start`, given the capture groups that the element pattern
/// gave for the text from `start` on, and the position behind the segment's predicates.
pub open spec fn segment_with(s: Seq<char>, start: int, groups: Seq<Option<Seq<char>>>) -> Option<
    Result<(SegmentView, int), ParseError>,
> {
    segment_after(s, start, element_from_groups(groups, s.len() - start))
}

/// The segment that starts at `start`, read with the element pattern, and the position
/// behind it.
pub open spec fn segment_at(s: Seq<char>, start: int) -> Option<
    Result<(SegmentView, int), ParseError>,
> {
    segment_after(s, start, element_at(s, start))
}

/// Where the segment that is read at `i` begins: behind one `/`, if one stands there.
pub open spec fn segment_start(s: Seq<char>, i: int) -> int {
    if 0 <= i < s.len() && s[i] == '/' {
        i + 1
    } else {
        i
    }
}

/// The segments written in `s` from position `i` on: one at least, and after each the next,
/// until the text ends.
pub open spec fn segments_from(s: Seq<char>, i: int) -> Option<
    Result<Seq<SegmentView>, ParseError>,
>
    decreases s.len() - i,
    when 0 <= i
    via segments_from_decreases
{
    match segment_at(s, segment_start(s, i)) {
        None => None,
        Some(Err(e)) => Some(Err(e)),
        Some(Ok((segment, end))) => if end >= s.len() {
            Some(Ok(seq![segment]))
        } else {
            match segments_from(s, end) {
                Some(Ok(rest)) => Some(Ok(seq![segment] + rest)),
                other => other,
            }
        },
    }
}

#[via_fn]
proof fn segments_from_decreases(s: Seq<char>, i: int) {
    lemma_segment_at_advances(s, segment_start(s, i));
}

/// The predicates that start at `i` end between `i` and the end of the text.
proof fn lemma_predicates_end(s: Seq<char>, i: int)
    requires
        0 <= i <= s.len(),
    ensures
        predicates_from(s, i) matches Some(Ok((_, end))) ==> i <= end <= s.len(),
    decreases s.len() - i,
{
    if i < s.len() && s[i] == '[' {
        let eq = find_char(s, '=', i + 1);
        lemma_find_char_bounds(s, '=', i + 1);
        if eq + 1 < s.len() {
            let close = find_char(s, s[eq + 1], eq + 2);
            lemma_find_char_bounds(s, s[eq + 1], eq + 2);
            if close + 1 < s.len() {
                lemma_predicates_end(s, close + 2);
            }
        }
    }
}

/// A segment that is read behind an element found at `start` ends behind `start`, and inside
/// the text, if the element is not empty and not longer than the text behind `start`.
proof fn lemma_segment_after_advances(s: Seq<char>, start: int, element: Option<ElementMatch>)
    requires
        0 <= start,
        element matches Some(m) ==> 0 < m.len <= s.len() - start,
    ensures
        segment_after(s, start, element) matches Some(Ok((_, end))) ==> start < end <= s.len(),
{
    match element {
        Some(m) => {
            lemma_predicates_end(s, start + m.len);
        },
        None => {},
    }
}

/// A segment that the element pattern reads at `start` ends behind `start`, and inside the
/// text.
proof fn lemma_segment_at_advances(s: Seq<char>, start: int)
    requires
        0 <= start,
    ensures
        segment_at(s, start) matches Some(Ok((_, end))) ==> start < end <= s.len(),
{
    lemma_segment_after_advances(s, start, element_at(s, start));
}

/// Segments that were read are at least one.
pub proof fn lemma_segments_not_empty(s: Seq<char>, i: int)
    requires
        0 <= i,
    ensures
        segments_from(s, i) matches Some(Ok(segments)) ==> segments.len() > 0,
{
}

/// What splitting the path `s` gives: its segments in the order in which they are written,
/// or the error that stops the scan. `None` where splitting is not defined for `s`.
pub open spec fn split_outcome(s: Seq<char>) -> Option<Result<Seq<SegmentView>, ParseError>> {
    if s.len() == 0 {
        Some(Err(ParseError::Empty))
    } else {
        segments_from(s, 0)
    }
}

/// The content of what the predicate scanner hands back.
pub open spec fn predicates_outcome_view(
    r: Option<Result<(Vec<(String, String)>, usize), ParseError>>,
) -> Option<Result<(Seq<(Seq<char>, Seq<char>)>, int), ParseError>> {
    match r {
        None => None,
        Some(Err(e)) => Some(Err(e)),
        Some(Ok((pairs, end))) => Some(Ok((predicates_view(pairs@), end as int))),
    }
}

/// The content of what reading one segment hands back.
pub open spec fn segment_outcome_view(r: Option<Result<(PathSegment, usize), ParseError>>) -> Option<
    Result<(SegmentView, int), ParseError>,
> {
    match r {
        None => None,
        Some(Err(e)) => Some(Err(e)),
        Some(Ok((segment, end))) => Some(Ok((segment@, end as int))),
    }
}

/// The content of what splitting hands back.
pub open spec fn split_result_view(r: Result<Vec<PathSegment>, ParseError>) -> Result<
    Seq<SegmentView>,
    ParseError,
> {
    match r {
        Err(e) => Err(e),
        Ok(segments) => Ok(segments_view(segments@)),
    }
}

/// The outcome `rest` with the predicates `done` put in front of those it found.
pub open spec fn with_predicates_before(
    done: Seq<(Seq<char>, Seq<char>)>,
    rest: Option<Result<(Seq<(Seq<char>, Seq<char>)>, int), ParseError>>,
) -> Option<Result<(Seq<(Seq<char>, Seq<char>)>, int), ParseError>> {
    match rest {
        Some(Ok((more, end))) => Some(Ok((done + more, end))),
        other => other,
    }
}

/// The outcome `rest` with the segments `done` put in front of those it found.
pub open spec fn with_segments_before(
    done: Seq<SegmentView>,
    rest: Option<Result<Seq<SegmentView>, ParseError>>,
) -> Option<Result<Seq<SegmentView>, ParseError>> {
    match rest {
        Some(Ok(more)) => Some(Ok(done + more)),
        other => other,
    }
}

fn find_from(chars: &Vec<char>, c: char, from: usize) -> (r: usize)
    requires
        from <= chars.len(),
    ensures
        r == find_char(chars@, c, from as int),
        from <= r <= chars.len(),
{
    let mut j: usize = from;
    while j < chars.len() && chars[j] != c
        invariant
            from <= j <= chars.len(),
            find_char(chars@, c, from as int) == find_char(chars@, c, j as int),
        decreases chars.len() - j,
    {
        j = j + 1;
    }
    j
}

fn is_single_byte(c: char) -> (r: bool)
    ensures
        r == single_byte(c),
{
    (c as u32) < 0x80
}

fn scan_predicates(xpath: &str, chars: &Vec<char>, start: usize) -> (r: Option<
    Result<(Vec<(String, String)>, usize), ParseError>,
>)
    requires
        chars@ == xpath@,
        start <= chars.len(),
    ensures
        predicates_outcome_view(r) == predicates_from(xpath@, start as int),
        r matches Some(Ok((_, end))) ==> start <= end <= chars.len(),
{
    let n = chars.len();
    let ghost s = xpath@;
    let mut pairs: Vec<(String, String)> = Vec::new();
    let mut i: usize = start;
    while i < n && chars[i] == '['
        invariant
            chars@ == s,
            s == xpath@,
            n == s.len(),
            start <= i <= n,
            predicates_from(s, start as int) == with_predicates_before(
                predicates_view(pairs@),
                predicates_from(s, i as int),
            ),
        decreases n - i,
    {
        let eq = find_from(chars, '=', i + 1);
        if eq >= n {
            return Some(Err(ParseError::MissingEquals));
        }
        if n - eq <= 1 || !is_single_byte(chars[eq + 1]) {
            return None;
        }
        let close = find_from(chars, chars[eq + 1], eq + 2);
        if close >= n {
            return Some(Err(ParseError::UnterminatedPredicate));
        }
        if n - close <= 1 || !is_single_byte(chars[close + 1]) {
            return None;
        }
        let key = owned_range(xpath, i + 1, eq);
        let value = owned_range(xpath, eq + 2, close);
        proof {
            let before = predicates_view(pairs@);
            let pair = (key@, value@);
            let after = predicates_view(pairs@.push((key, value)));
            assert(after =~= before + seq![pair]);
            match predicates_from(s, close + 2) {
                Some(Ok((rest, end))) => {
                    assert(before + (seq![pair] + rest) =~= (before + seq![pair]) + rest);
                },
                _ => {},
            }
        }
        pairs.push((key, value));
        i = close + 2;
    }
    proof {
        assert(predicates_view(pairs@) + Seq::<(Seq<char>, Seq<char>)>::empty() =~= predicates_view(
            pairs@,
        ));
    }
    Some(Ok((pairs, i)))
}

fn read_segment(xpath: &str, chars: &Vec<char>, start: usize, groups: Vec<Option<String>>) -> (r:
    Option<Result<(PathSegment, usize), ParseError>>)
    requires
        chars@ == xpath@,
        start <= chars.len(),
    ensures
        segment_outcome_view(r) == segment_with(xpath@, start as int, groups_view(groups@)),
        r matches Some(Ok((_, end))) ==> start < end <= chars.len(),
{
    let ghost given = groups_view(groups@);
    let mut groups = groups;
    if groups.len() != 3 {
        return None;
    }
    let name = groups.pop().unwrap();
    let namespace = groups.pop().unwrap();
    let whole = groups.pop().unwrap();
    assert(given[0] == match whole {
        Some(text) => Some(text@),
        None => None,
    });
    assert(given[1] == match namespace {
        Some(text) => Some(text@),
        None => None,
    });
    assert(given[2] == match name {
        Some(text) => Some(text@),
        None => None,
    });
    match (whole, name) {
        (Some(whole), Some(name)) => {
            let len = whole.as_str().unicode_len();
            if len == 0 || len > chars.len() - start {
                return None;
            }
            match scan_predicates(xpath, chars, start + len) {
                None => None,
                Some(Err(e)) => Some(Err(e)),
                Some(Ok((predicates, end))) => Some(
                    Ok((PathSegment { namespace, name, predicates }, end)),
                ),
            }
        },
        _ => None,
    }
}

/// Reads the segment of `xpath` that starts at character `start`, from the capture groups
/// that the element pattern gave for the text from `start` on: the whole match, the prefix
/// and the name. Answers with the segment and the position behind its predicates, with the
/// error that its predicates hold, or with `None` where the groups describe no element or no
/// result is defined for the predicates.
pub fn parse_segment(xpath: &str, start: usize, groups: Vec<Option<String>>) -> (r: Option<
    Result<(PathSegment, usize), ParseError>,
>)
    requires
        start <= xpath@.len(),
    ensures
        segment_outcome_view(r) == segment_with(xpath@, start as int, groups_view(groups@)),
{
    let chars = chars_of(xpath);
    read_segment(xpath, &chars, start, groups)
}

/// Splits `xpath` wherever splitting is defined, and says `None` where it is not.
fn split_total(xpath: &str) -> (r: Option<Result<Vec<PathSegment>, ParseError>>)
    ensures
        r matches Some(found) ==> split_outcome(xpath@) == Some(split_result_view(found)),
        r is None ==> split_outcome(xpath@) is None,
{
    let chars = chars_of(xpath);
    let n = chars.len();
    if n == 0 {
        return Some(Err(ParseError::Empty));
    }
    let ghost s = xpath@;
    let mut segments: Vec<PathSegment> = Vec::new();
    let mut i: usize = 0;
    loop
        invariant
            chars@ == s,
            s == xpath@,
            n == s.len(),
            i < n,
            split_outcome(s) == with_segments_before(
                segments_view(segments@),
                segments_from(s, i as int),
            ),
        decreases n - i,
    {
        let start = if chars[i] == '/' {
            i + 1
        } else {
            i
        };
        let found = match captures(ELEMENT_PATTERN, xpath.substring_char(start, n)) {
            Some(groups) => read_segment(xpath, &chars, start, groups),
            None => None,
        };
        match found {
            None => {
                return None;
            },
            Some(Err(e)) => {
                return Some(Err(e));
            },
            Some(Ok((segment, end))) => {
                proof {
                    let before = segments_view(segments@);
                    let after = segments_view(segments@.push(segment));
                    assert(after =~= before + seq![segment@]);
                    if end < n {
                        match segments_from(s, end as int) {
                            Some(Ok(rest)) => {
                                assert(before + (seq![segment@] + rest) =~= (before + seq![
                                    segment@,
                                ]) + rest);
                            },
                            _ => {},
                        }
                    }
                }
                segments.push(segment);
                if end >= n {
                    return Some(Ok(segments));
                }
                i = end;
            },
        }
    }
}

/// Whether splitting is defined for `xpath`.
pub fn can_split(xpath: &str) -> (r: bool)
    ensures
        r == (split_outcome(xpath@) is Some),
{
    split_total(xpath).is_some()
}

/// Splits an instance path into its segments.
///
/// The path is read once from left to right. Each segment may begin with one `/`, which is
/// skipped; then come an optional prefix with its colon and the name, as the element pattern
/// reads them; then the predicates in square brackets. The segments come back in the order
/// in which they are written, each with its predicates in the order in which they are
/// written. The errors are `Empty` for the empty path, `MissingEquals` for a predicate
/// without `=` and `UnterminatedPredicate` for a value whose opening quote does not come
/// again.
///
/// The path has to be one for which splitting is defined; `try_xpath_split` takes any path.
pub fn xpath_split(xpath: &str) -> (r: Result<Vec<PathSegment>, ParseError>)
    requires
        split_outcome(xpath@) is Some,
    ensures
        split_outcome(xpath@) == Some(split_result_view(r)),
        r matches Ok(segments) ==> segments.len() > 0,
{
    proof {
        lemma_segments_not_empty(xpath@, 0);
    }
    split_total(xpath).unwrap()
}

/// Splits `xpath` if splitting is defined for it, and answers `None` if it is not.
pub fn try_xpath_split(xpath: &str) -> (r: Option<Result<Vec<PathSegment>, ParseError>>)
    ensures
        r matches Some(found) ==> split_outcome(xpath@) == Some(split_result_view(found)),
        r is None ==> split_outcome(xpath@) is None,
{
    if can_split(xpath) {
        Some(xpath_split(xpath))
    } else {
        None
    }
}

/// Whether a list of segments lies under the interface list of the module `module`: its
/// first segment is `module:interfaces`, and if a second one follows, that one is named
/// `interface` and carries exactly one predicate.
pub open spec fn under_interfaces(segments: Seq<SegmentView>, module: Seq<char>) -> bool {
    &&& segments.len() > 0
    &&& segments[0].namespace == Some(module)
    &&& segments[0].name == "interfaces"@
    &&& segments.len() > 1 ==> segments[1].name == "interface"@ && segments[1].predicates.len()
        == 1
}

/// The interface that a list of segments under the interface list names: none where the
/// list is the interfaces container alone, else the value of the second segment's predicate.
pub open spec fn named_interface(segments: Seq<SegmentView>) -> Option<Seq<char>> {
    if segments.len() > 1 {
        Some(segments[1].predicates[0].1)
    } else {
        None
    }
}

/// Whether the path `path` splits into segments that lie under the interface list of
/// `module`.
pub open spec fn path_under_interfaces(path: Seq<char>, module: Seq<char>) -> bool {
    split_outcome(path) matches Some(Ok(segments)) && under_interfaces(segments, module)
}

/// The text of an optional string.
pub open spec fn option_text(text: Option<String>) -> Option<Seq<char>> {
    match text {
        Some(t) => Some(t@),
        None => None,
    }
}

/// Whether `segments` lie under the interface list of the module `module_name`.
pub fn segments_under_interfaces(segments: &Vec<PathSegment>, module_name: &str) -> (r: bool)
    ensures
        r == under_interfaces(segments_view(segments@), module_name@),
{
    if segments.len() == 0 {
        return false;
    }
    let owner = match &segments[0].namespace {
        Some(prefix) => same_text(prefix, module_name),
        None => false,
    };
    if !owner || !same_text(&segments[0].name, "interfaces") {
        return false;
    }
    if segments.len() == 1 {
        return true;
    }
    same_text(&segments[1].name, "interface") && segments[1].predicates.len() == 1
}

/// The interface that `segments` name, for segments that lie under the interface list of
/// `module_name`: `None` where they are the interfaces container alone, else the value of
/// the second segment's one predicate.
pub fn interface_name_from_segments(segments: &Vec<PathSegment>, module_name: &str) -> (r: Option<
    String,
>)
    requires
        under_interfaces(segments_view(segments@), module_name@),
    ensures
        option_text(r) == named_interface(segments_view(segments@)),
{
    if segments.len() == 1 {
        None
    } else {
        Some(segments[1].predicates[0].1.clone())
    }
}

/// Whether `path` can be split and lies under the interface list of `module_name`.
pub fn is_under_interfaces(path: &str, module_name: &str) -> (r: bool)
    ensures
        r == path_under_interfaces(path@, module_name@),
{
    match try_xpath_split(path) {
        Some(Ok(segments)) => segments_under_interfaces(&segments, module_name),
        _ => false,
    }
}

/// The interface that the path `path` names, where the path lies under the interface list of
/// `module_name`, and `None` where it does not.
pub fn try_interface_name_from_path(path: &str, module_name: &str) -> (r: Option<Option<String>>)
    ensures
        r matches Some(name) ==> path_under_interfaces(path@, module_name@) && option_text(name)
            == named_interface(split_outcome(path@)->0->Ok_0),
        r is None ==> !path_under_interfaces(path@, module_name@),
{
    if is_under_interfaces(path, module_name) {
        Some(interface_name_from_path(path, module_name))
    } else {
        None
    }
}

/// The interface that the path `path` names.
///
/// The path has to lie under the interface list of `module_name`: it splits, its first
/// segment is `module_name:interfaces`, and a second segment, if there is one, is named
/// `interface` and has exactly one predicate. The answer is `None` where the path is the
/// interfaces container itself, else the value of that predicate.
pub fn interface_name_from_path(path: &str, module_name: &str) -> (r: Option<String>)
    requires
        path_under_interfaces(path@, module_name@),
    ensures
        option_text(r) == named_interface(split_outcome(path@)->0->Ok_0),
{
    let segments = xpath_split(path).unwrap();
    interface_name_from_segments(&segments, module_name)
}

} // verus!
