use vstd::prelude::*;

verus! {

/// The value of four bytes read little-endian.
pub open spec fn le_value(b: Seq<u8>) -> nat
    recommends
        b.len() == 4,
{
    b[0] as nat + 256 * (b[1] as nat) + 65536 * (b[2] as nat) + 16777216 * (b[3] as nat)
}

/// The bytes a launch count is stored as: little-endian.
pub fn count_to_bytes(n: u32) -> (r: [u8; 4])
    ensures
        le_value(r@) == n,
{
    let b0 = (n % 256) as u8;
    let b1 = ((n / 256) % 256) as u8;
    let b2 = ((n / 65536) % 256) as u8;
    let b3 = (n / 16777216) as u8;
    let r = [b0, b1, b2, b3];
    assert(r@[0] == b0 && r@[1] == b1 && r@[2] == b2 && r@[3] == b3);
    assert(n == b0 + 256 * b1 + 65536 * b2 + 16777216 * b3) by (nonlinear_arith)
        requires
            b0 == n % 256,
            b1 == (n / 256) % 256,
            b2 == (n / 65536) % 256,
            b3 == n / 16777216,
            n <= u32::MAX,
    ;
    r
}

/// The launch count stored in four bytes.
pub fn count_from_bytes(b: [u8; 4]) -> (r: u32)
    ensures
        r == le_value(b@),
{
    let r = (b[0] as u32) + 256 * (b[1] as u32) + 65536 * (b[2] as u32) + 16777216 * (b[3] as u32);
    r
}

/// Four bytes hold one count only: bytes that read as the same count are
/// the same bytes, so storing a count read back stores the bytes read.
pub proof fn lemma_count_bytes_unique(a: Seq<u8>, b: Seq<u8>)
    requires
        a.len() == 4,
        b.len() == 4,
        le_value(a) == le_value(b),
    ensures
        a == b,
{
    let (a0, a1, a2, a3) = (a[0] as int, a[1] as int, a[2] as int, a[3] as int);
    let (b0, b1, b2, b3) = (b[0] as int, b[1] as int, b[2] as int, b[3] as int);
    assert(a0 == b0 && a1 == b1 && a2 == b2 && a3 == b3) by (nonlinear_arith)
        requires
            0 <= a0 < 256,
            0 <= a1 < 256,
            0 <= a2 < 256,
            0 <= a3 < 256,
            0 <= b0 < 256,
            0 <= b1 < 256,
            0 <= b2 < 256,
            0 <= b3 < 256,
            a0 + 256 * a1 + 65536 * a2 + 16777216 * a3 == b0 + 256 * b1 + 65536 * b2 + 16777216
                * b3,
    ;
    assert(a =~= b);
}

/// The count after one more launch; it stays at the largest value.
pub fn next_count(n: u32) -> (r: u32)
    ensures
        r == if n == u32::MAX {
            n as int
        } else {
            n + 1
        },
{
    n.saturating_add(1)
}

/// Whether a cache written `elapsed_secs` seconds ago (and `elapsed_nanos`
/// more) is younger than `age_minutes` minutes.
pub fn cache_is_fresh(elapsed_secs: u64, elapsed_nanos: u32, age_minutes: u64) -> (r: bool)
    requires
        age_minutes <= u64::MAX / 60,
        elapsed_nanos < 1_000_000_000,
    ensures
        r == (elapsed_secs * 1_000_000_000 + elapsed_nanos < age_minutes * 60 * 1_000_000_000),
{
    elapsed_secs < age_minutes * 60
}

/// An action that becomes due once the launch count reaches `on`.
#[derive(Clone, Debug)]
pub struct SherlockAction {
    pub on: u32,
    pub action: String,
    pub command: Option<String>,
}

/// The text of an action, as written to the log:
/// `{"on": 5, "action": "..", "exec": ".." }` (`null` for no command).
pub open spec fn action_text(a: SherlockAction) -> Seq<char> {
    "{\"on\": "@ + crate::text::decimal(a.on as nat) + ", \"action\": \""@ + a.action@
        + "\", \"exec\": "@ + match a.command {
        Some(s) => "\""@ + s@ + "\""@,
        None => "null"@,
    } + " }"@
}

impl SherlockAction {
    /// The text of the action.
    pub fn to_text(&self) -> (r: String)
        ensures
            r@ == action_text(*self),
    {
        let mut v = crate::text::str_chars("{\"on\": ");
        crate::text::push_decimal(&mut v, self.on as u64);
        crate::text::extend_chars(&mut v, &crate::text::str_chars(", \"action\": \""));
        crate::text::extend_chars(&mut v, &crate::text::str_chars(self.action.as_str()));
        crate::text::extend_chars(&mut v, &crate::text::str_chars("\", \"exec\": "));
        match &self.command {
            Some(s) => {
                crate::text::extend_chars(&mut v, &crate::text::str_chars("\""));
                crate::text::extend_chars(&mut v, &crate::text::str_chars(s.as_str()));
                crate::text::extend_chars(&mut v, &crate::text::str_chars("\""));
            },
            None => {
                crate::text::extend_chars(&mut v, &crate::text::str_chars("null"));
            },
        }
        crate::text::extend_chars(&mut v, &crate::text::str_chars(" }"));
        crate::text::string_from_chars(v.as_slice())
    }
}

} // verus!
