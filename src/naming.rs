use vstd::prelude::*;

verus! {

/// Characters that are stripped from a monitor name before it goes into a
/// file path.
pub open spec fn is_path_unsafe(c: char) -> bool {
    c == '|' || c == '\\' || c == ':' || c == '/'
}

/// `s` without its path-unsafe characters, the others kept in order.
pub open spec fn sanitize(s: Seq<char>) -> Seq<char>
    decreases s.len(),
{
    if s.len() == 0 {
        Seq::empty()
    } else if is_path_unsafe(s.last()) {
        sanitize(s.drop_last())
    } else {
        sanitize(s.drop_last()).push(s.last())
    }
}

/// Relies on `String::push`, which appends one character.
#[verifier::external_body]
fn push_char(s: &mut String, c: char)
    ensures
        final(s)@ == old(s)@.push(c),
{
    s.push(c)
}

/// Sanitization leaves no path-unsafe character behind.
pub proof fn lemma_sanitize_safe(s: Seq<char>)
    ensures
        forall|i: int| 0 <= i < sanitize(s).len() ==> !is_path_unsafe(#[trigger] sanitize(s)[i]),
    decreases s.len(),
{
    if s.len() > 0 {
        lemma_sanitize_safe(s.drop_last());
        let r = sanitize(s.drop_last());
        if !is_path_unsafe(s.last()) {
            assert forall|i: int| 0 <= i < r.push(s.last()).len() implies !is_path_unsafe(
                #[trigger] r.push(s.last())[i],
            ) by {
                if i < r.len() {
                    assert(r.push(s.last())[i] == r[i]);
                }
            }
        }
    }
}

/// A string without path-unsafe characters is its own sanitization.
proof fn lemma_sanitize_of_safe(s: Seq<char>)
    requires
        forall|i: int| 0 <= i < s.len() ==> !is_path_unsafe(#[trigger] s[i]),
    ensures
        sanitize(s) == s,
    decreases s.len(),
{
    if s.len() > 0 {
        lemma_sanitize_of_safe(s.drop_last());
        assert(s.drop_last().push(s.last()) =~= s);
    }
}

/// Sanitizing twice gives what sanitizing once gives.
pub proof fn lemma_sanitize_idempotent(s: Seq<char>)
    ensures
        sanitize(sanitize(s)) == sanitize(s),
{
    lemma_sanitize_safe(s);
    lemma_sanitize_of_safe(sanitize(s));
}

/// Removes the characters `|`, `\`, `:` and `/` from a name.
pub fn normalized(filename: &str) -> (r: String)
    ensures
        r@ == sanitize(filename@),
{
    let n = filename.unicode_len();
    let mut out = String::new();
    let mut i: usize = 0;
    while i < n
        invariant
            n == filename@.len(),
            i <= n,
            out@ == sanitize(filename@.subrange(0, i as int)),
        decreases n - i,
    {
        let c = filename.get_char(i);
        assert(filename@.subrange(0, i as int + 1).drop_last() =~= filename@.subrange(0, i as int));
        if !(c == '|' || c == '\\' || c == ':' || c == '/') {
            push_char(&mut out, c);
        }
        i = i + 1;
    }
    assert(filename@.subrange(0, n as int) =~= filename@);
    out
}

/// A local date and time, to the second.
#[derive(Clone, Copy, Debug, PartialEq, Eq, Structural)]
pub struct Timestamp {
    pub year: u32,
    pub month: u32,
    pub day: u32,
    pub hour: u32,
    pub minute: u32,
    pub second: u32,
}

impl Timestamp {
    /// A four-digit year and fields in their calendar ranges (a leap second
    /// counts as second 60).
    pub open spec fn wf(&self) -> bool {
        &&& self.year <= 9999
        &&& 1 <= self.month <= 12
        &&& 1 <= self.day <= 31
        &&& self.hour < 24
        &&& self.minute < 60
        &&& self.second <= 60
    }
}

/// The decimal digit `d` (below ten) as a character.
pub open spec fn digit_char(d: nat) -> char {
    ((48 + d) as u8) as char
}

/// The last `width` decimal digits of `n`, most significant first, padded
/// with zeros.
pub open spec fn padded_digits(n: nat, width: nat) -> Seq<char>
    decreases width,
{
    if width == 0 {
        Seq::empty()
    } else {
        padded_digits(n / 10, (width - 1) as nat).push(digit_char(n % 10))
    }
}

/// `YYYY-MM-DD-HH-MM-SS`.
pub open spec fn stamp_text(t: Timestamp) -> Seq<char> {
    padded_digits(t.year as nat, 4) + seq!['-'] + padded_digits(t.month as nat, 2) + seq!['-']
        + padded_digits(t.day as nat, 2) + seq!['-'] + padded_digits(t.hour as nat, 2) + seq!['-']
        + padded_digits(t.minute as nat, 2) + seq!['-'] + padded_digits(t.second as nat, 2)
}

fn push_padded(out: &mut String, n: u32, width: u32)
    ensures
        final(out)@ == old(out)@ + padded_digits(n as nat, width as nat),
    decreases width,
{
    if width == 0 {
        assert(old(out)@ + padded_digits(n as nat, 0) =~= old(out)@);
        return;
    }
    push_padded(out, n / 10, width - 1);
    let d: u8 = (n % 10) as u8;
    push_char(out, (48u8 + d) as char);
    assert(final(out)@ =~= old(out)@ + padded_digits(n as nat, width as nat));
}

/// Formats a timestamp as `YYYY-MM-DD-HH-MM-SS`, each field zero-padded.
pub fn format_timestamp(t: &Timestamp) -> (r: String)
    ensures
        r@ == stamp_text(*t),
{
    let mut out = String::new();
    push_padded(&mut out, t.year, 4);
    push_char(&mut out, '-');
    push_padded(&mut out, t.month, 2);
    push_char(&mut out, '-');
    push_padded(&mut out, t.day, 2);
    push_char(&mut out, '-');
    push_padded(&mut out, t.hour, 2);
    push_char(&mut out, '-');
    push_padded(&mut out, t.minute, 2);
    push_char(&mut out, '-');
    push_padded(&mut out, t.second, 2);
    assert(out@ =~= stamp_text(*t));
    out
}

/// The path of an artifact: `<dir>/monitor-<sanitized name>-<timestamp>.webp`.
pub open spec fn artifact_path_text(dir: Seq<char>, monitor_name: Seq<char>, t: Timestamp) -> Seq<char> {
    dir + "/monitor-"@ + sanitize(monitor_name) + "-"@ + stamp_text(t) + ".webp"@
}

/// Builds the path under `dir` of the artifact of `monitor_name` taken at `t`.
pub fn artifact_path(dir: &str, monitor_name: &str, t: &Timestamp) -> (r: String)
    ensures
        r@ == artifact_path_text(dir@, monitor_name@, *t),
{
    let mut out = String::from_str(dir);
    out.append("/monitor-");
    let name = normalized(monitor_name);
    out.append(name.as_str());
    out.append("-");
    let stamp = format_timestamp(t);
    out.append(stamp.as_str());
    out.append(".webp");
    out
}

} // verus!
