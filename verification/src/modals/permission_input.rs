use crate::modals::tool::{ToolView, ToolViewModel};
use vstd::prelude::*;

verus! {

/// The answer given to a request for permission to run a tool.
#[derive(Clone, Copy, Debug, PartialEq, Eq, Structural)]
pub enum PermissionResult {
    GrantedOnce,
    GrantedAlways,
    Denied,
    Timeout,
    NoInput,
}

/// How permission requests are answered.
#[derive(Clone, Copy, Debug, PartialEq, Eq, Structural)]
pub enum PermissionMode {
    Interactive,
    AutoApprove,
    AutoDeny,
}

impl Default for PermissionMode {
    fn default() -> (m: Self)
        ensures
            m == PermissionMode::Interactive,
    {
        PermissionMode::Interactive
    }
}

/// A queued permission request: the request key and the tool call it is about.
#[derive(Debug)]
pub struct PermissionEntry {
    pub key: String,
    pub tool_view: ToolView,
}

/// The mathematical value of a [`PermissionEntry`].
pub struct EntryModel {
    pub key: Seq<char>,
    pub tool_view: ToolViewModel,
}

impl View for PermissionEntry {
    type V = EntryModel;

    open spec fn view(&self) -> EntryModel {
        EntryModel { key: self.key@, tool_view: self.tool_view@ }
    }
}

/// A source of answers to permission requests.
pub trait PermissionInput {
    /// What this input promises of one answer: that, in this state, it may give
    /// `answer` to the request `entry` and be left in the state `next`. An input
    /// that keeps this default promises nothing of its answers.
    open spec fn gives(&self, entry: EntryModel, answer: PermissionResult, next: &Self) -> bool {
        true
    }

    /// Answers one permission request.
    fn ask(&mut self, permission_entry: &PermissionEntry) -> (r: PermissionResult)
        ensures
            old(self).gives(permission_entry@, r, final(self)),
    ;

    /// The mode this source stands for.
    fn mode(&self) -> PermissionMode;
}

/// Grants every request for good.
pub struct GrantedAlwaysPermissionInput;

impl PermissionInput for GrantedAlwaysPermissionInput {
    open spec fn gives(&self, entry: EntryModel, answer: PermissionResult, next: &Self) -> bool {
        answer == PermissionResult::GrantedAlways
    }

    fn ask(&mut self, _permission_entry: &PermissionEntry) -> (r: PermissionResult)
        ensures
            r == PermissionResult::GrantedAlways,
    {
        PermissionResult::GrantedAlways
    }

    fn mode(&self) -> (m: PermissionMode)
        ensures
            m == PermissionMode::AutoApprove,
    {
        PermissionMode::AutoApprove
    }
}

/// Denies every request.
pub struct DeniedPermissionInput;

impl PermissionInput for DeniedPermissionInput {
    open spec fn gives(&self, entry: EntryModel, answer: PermissionResult, next: &Self) -> bool {
        answer == PermissionResult::Denied
    }

    fn ask(&mut self, _permission_entry: &PermissionEntry) -> (r: PermissionResult)
        ensures
            r == PermissionResult::Denied,
    {
        PermissionResult::Denied
    }

    fn mode(&self) -> (m: PermissionMode)
        ensures
            m == PermissionMode::AutoDeny,
    {
        PermissionMode::AutoDeny
    }
}

/// `char::is_whitespace`: the Unicode `White_Space` property.
pub open spec fn is_white_space(c: char) -> bool {
    let n = c as u32;
    ||| 0x09 <= n <= 0x0d
    ||| n == 0x20
    ||| n == 0x85
    ||| n == 0xa0
    ||| n == 0x1680
    ||| 0x2000 <= n <= 0x200a
    ||| n == 0x2028
    ||| n == 0x2029
    ||| n == 0x202f
    ||| n == 0x205f
    ||| n == 0x3000
}

/// The text with leading white space removed (`str::trim_start`).
pub open spec fn trim_start(s: Seq<char>) -> Seq<char>
    decreases s.len(),
{
    if s.len() > 0 && is_white_space(s[0]) {
        trim_start(s.drop_first())
    } else {
        s
    }
}

/// The text with trailing white space removed (`str::trim_end`).
pub open spec fn trim_end(s: Seq<char>) -> Seq<char>
    decreases s.len(),
{
    if s.len() > 0 && is_white_space(s.last()) {
        trim_end(s.drop_last())
    } else {
        s
    }
}

/// `str::trim`.
pub open spec fn trim(s: Seq<char>) -> Seq<char> {
    trim_end(trim_start(s))
}

/// `char::to_ascii_lowercase`.
pub open spec fn ascii_lower(c: char) -> char {
    if 'A' <= c <= 'Z' {
        ((c as u32) + 32) as char
    } else {
        c
    }
}

/// `str::to_ascii_lowercase`.
pub open spec fn ascii_lowercase(s: Seq<char>) -> Seq<char> {
    s.map_values(|c: char| ascii_lower(c))
}

/// What a typed answer line means: `y` grants once, `a` grants for good, `n`
/// denies, anything else counts as no input. Surrounding white space and the
/// case of ASCII letters do not matter.
pub open spec fn input_meaning(line: Seq<char>) -> PermissionResult {
    let word = ascii_lowercase(trim(line));
    if word == seq!['y'] {
        PermissionResult::GrantedOnce
    } else if word == seq!['a'] {
        PermissionResult::GrantedAlways
    } else if word == seq!['n'] {
        PermissionResult::Denied
    } else {
        PermissionResult::NoInput
    }
}

proof fn lemma_trim_start_at(s: Seq<char>, i: int)
    requires
        0 <= i <= s.len(),
        forall|k: int| 0 <= k < i ==> is_white_space(#[trigger] s[k]),
        i == s.len() || !is_white_space(s[i]),
    ensures
        trim_start(s) == s.subrange(i, s.len() as int),
    decreases i,
{
    if i == 0 {
        assert(s.subrange(0, s.len() as int) =~= s);
    } else {
        let t = s.drop_first();
        assert forall|k: int| 0 <= k < i - 1 implies is_white_space(#[trigger] t[k]) by {
            assert(t[k] == s[k + 1]);
        }
        assert(i - 1 == t.len() || t[i - 1] == s[i]);
        lemma_trim_start_at(t, i - 1);
        assert(t.subrange(i - 1, t.len() as int) =~= s.subrange(i, s.len() as int));
    }
}

proof fn lemma_trim_end_at(s: Seq<char>, j: int)
    requires
        0 <= j <= s.len(),
        forall|k: int| j <= k < s.len() ==> is_white_space(#[trigger] s[k]),
        j == 0 || !is_white_space(s[j - 1]),
    ensures
        trim_end(s) == s.subrange(0, j),
    decreases s.len() - j,
{
    if j == s.len() {
        assert(s.subrange(0, j) =~= s);
    } else {
        let t = s.drop_last();
        assert(is_white_space(s[s.len() - 1]));
        assert forall|k: int| j <= k < t.len() implies is_white_space(#[trigger] t[k]) by {
            assert(t[k] == s[k]);
        }
        assert(j == 0 || t[j - 1] == s[j - 1]);
        lemma_trim_end_at(t, j);
        assert(t.subrange(0, j) =~= s.subrange(0, j));
    }
}

proof fn lemma_lower_keeps_white_space(c: char)
    ensures
        is_white_space(ascii_lower(c)) == is_white_space(c),
        ascii_lower(ascii_lower(c)) == ascii_lower(c),
{
}

proof fn lemma_trim_start_lower(s: Seq<char>)
    ensures
        trim_start(ascii_lowercase(s)) == ascii_lowercase(trim_start(s)),
    decreases s.len(),
{
    if s.len() > 0 {
        lemma_lower_keeps_white_space(s[0]);
        assert(ascii_lowercase(s)[0] == ascii_lower(s[0]));
        assert(ascii_lowercase(s).drop_first() =~= ascii_lowercase(s.drop_first()));
        lemma_trim_start_lower(s.drop_first());
    }
}

proof fn lemma_trim_end_lower(s: Seq<char>)
    ensures
        trim_end(ascii_lowercase(s)) == ascii_lowercase(trim_end(s)),
    decreases s.len(),
{
    if s.len() > 0 {
        lemma_lower_keeps_white_space(s.last());
        assert(ascii_lowercase(s).last() == ascii_lower(s.last()));
        assert(ascii_lowercase(s).drop_last() =~= ascii_lowercase(s.drop_last()));
        lemma_trim_end_lower(s.drop_last());
    }
}

/// A typed answer means the same whatever the case of its ASCII letters.
pub proof fn lemma_answer_ignores_case(line: Seq<char>)
    ensures
        input_meaning(ascii_lowercase(line)) == input_meaning(line),
{
    lemma_trim_start_lower(line);
    lemma_trim_end_lower(trim_start(line));
    let t = trim(line);
    assert(ascii_lowercase(ascii_lowercase(t)) =~= ascii_lowercase(t)) by {
        assert forall|i: int| 0 <= i < t.len() implies ascii_lower(ascii_lower(t[i])) == ascii_lower(t[i]) by {
            lemma_lower_keeps_white_space(t[i]);
        }
    }
}

pub open spec fn all_white_space(s: Seq<char>) -> bool {
    forall|i: int| 0 <= i < s.len() ==> is_white_space(#[trigger] s[i])
}

proof fn lemma_trim_start_skips(b: Seq<char>, x: Seq<char>)
    requires
        all_white_space(b),
    ensures
        trim_start(b + x) == trim_start(x),
    decreases b.len(),
{
    if b.len() > 0 {
        assert((b + x)[0] == b[0]);
        assert((b + x).drop_first() =~= b.drop_first() + x);
        assert(all_white_space(b.drop_first())) by {
            assert forall|i: int| 0 <= i < b.drop_first().len() implies is_white_space(#[trigger] b.drop_first()[i]) by {
                assert(b.drop_first()[i] == b[i + 1]);
            }
        }
        lemma_trim_start_skips(b.drop_first(), x);
    } else {
        assert(b + x =~= x);
    }
}

proof fn lemma_trim_end_skips(x: Seq<char>, a: Seq<char>)
    requires
        all_white_space(a),
    ensures
        trim_end(x + a) == trim_end(x),
    decreases a.len(),
{
    if a.len() > 0 {
        assert((x + a).last() == a.last());
        assert(is_white_space(a[a.len() - 1]));
        assert((x + a).drop_last() =~= x + a.drop_last());
        assert(all_white_space(a.drop_last())) by {
            assert forall|i: int| 0 <= i < a.drop_last().len() implies is_white_space(#[trigger] a.drop_last()[i]) by {
                assert(a.drop_last()[i] == a[i]);
            }
        }
        lemma_trim_end_skips(x, a.drop_last());
    } else {
        assert(x + a =~= x);
    }
}

proof fn lemma_trim_start_of_white_space(a: Seq<char>)
    requires
        all_white_space(a),
    ensures
        trim_start(a) == Seq::<char>::empty(),
    decreases a.len(),
{
    if a.len() > 0 {
        assert(all_white_space(a.drop_first())) by {
            assert forall|i: int| 0 <= i < a.drop_first().len() implies is_white_space(#[trigger] a.drop_first()[i]) by {
                assert(a.drop_first()[i] == a[i + 1]);
            }
        }
        lemma_trim_start_of_white_space(a.drop_first());
    } else {
        assert(a =~= Seq::<char>::empty());
    }
}

proof fn lemma_trim_ignores_trailing(x: Seq<char>, a: Seq<char>)
    requires
        all_white_space(a),
    ensures
        trim(x + a) == trim(x),
    decreases x.len(),
{
    if x.len() == 0 {
        assert(x + a =~= a);
        lemma_trim_start_of_white_space(a);
        assert(trim_start(x) == x);
    } else if is_white_space(x[0]) {
        assert((x + a)[0] == x[0]);
        assert((x + a).drop_first() =~= x.drop_first() + a);
        lemma_trim_ignores_trailing(x.drop_first(), a);
    } else {
        assert((x + a)[0] == x[0]);
        lemma_trim_end_skips(x, a);
    }
}

/// White space around a typed answer does not change its meaning.
pub proof fn lemma_answer_ignores_surrounding_space(line: Seq<char>, before: Seq<char>, after: Seq<char>)
    requires
        all_white_space(before),
        all_white_space(after),
    ensures
        input_meaning(before + line + after) == input_meaning(line),
{
    assert(before + line + after =~= before + (line + after));
    lemma_trim_start_skips(before, line + after);
    lemma_trim_ignores_trailing(line, after);
}

fn is_white_space_char(c: char) -> (b: bool)
    ensures
        b == is_white_space(c),
{
    let n = c as u32;
    (0x09 <= n && n <= 0x0d) || n == 0x20 || n == 0x85 || n == 0xa0 || n == 0x1680 || (0x2000
        <= n && n <= 0x200a) || n == 0x2028 || n == 0x2029 || n == 0x202f || n == 0x205f || n
        == 0x3000
}

/// Reads a typed answer: `y` grants once, `a` grants always, `n` denies, anything
/// else is no input; white space around it and ASCII case are ignored.
pub fn input_match(line: &str) -> (r: PermissionResult)
    ensures
        r == input_meaning(line@),
{
    let n = line.unicode_len();
    let mut i: usize = 0;
    while i < n && is_white_space_char(line.get_char(i))
        invariant
            n == line@.len(),
            i <= n,
            forall|k: int| 0 <= k < i ==> is_white_space(#[trigger] line@[k]),
        decreases n - i,
    {
        i = i + 1;
    }
    let mut j: usize = n;
    while j > i && is_white_space_char(line.get_char(j - 1))
        invariant
            n == line@.len(),
            i <= j <= n,
            forall|k: int| j <= k < n ==> is_white_space(#[trigger] line@[k]),
        decreases j,
    {
        j = j - 1;
    }
    let ghost s = line@;
    proof {
        lemma_trim_start_at(s, i as int);
        let t = s.subrange(i as int, n as int);
        assert forall|k: int| j - i <= k < t.len() implies is_white_space(#[trigger] t[k]) by {
            assert(t[k] == s[k + i]);
        }
        if j > i {
            assert(t[j - i - 1] == s[j - 1]);
        }
        lemma_trim_end_at(t, j - i);
        assert(t.subrange(0, j - i) =~= s.subrange(i as int, j as int));
    }
    let ghost word = ascii_lowercase(s.subrange(i as int, j as int));
    if j - i != 1 {
        assert(word.len() != 1);
        assert(word != seq!['y']);
        assert(word != seq!['a']);
        assert(word != seq!['n']);
        return PermissionResult::NoInput;
    }
    let c = line.get_char(i);
    assert(word =~= seq![ascii_lower(c)]);
    match c {
        'y' | 'Y' => {
            assert(ascii_lower(c) == 'y');
            assert(word =~= seq!['y']);
            PermissionResult::GrantedOnce
        },
        'a' | 'A' => {
            assert(ascii_lower(c) == 'a');
            assert(word =~= seq!['a']);
            PermissionResult::GrantedAlways
        },
        'n' | 'N' => {
            assert(ascii_lower(c) == 'n');
            assert(word =~= seq!['n']);
            PermissionResult::Denied
        },
        _ => {
            assert(ascii_lower(c) != 'y' && ascii_lower(c) != 'a' && ascii_lower(c) != 'n');
            assert(word[0] != seq!['y'][0]);
            assert(word[0] != seq!['a'][0]);
            assert(word[0] != seq!['n'][0]);
            assert(word != seq!['y']);
            assert(word != seq!['a']);
            assert(word != seq!['n']);
            PermissionResult::NoInput
        },
    }
}

} // verus!
