use vstd::prelude::*;

verus! {

/// The byte of a newline.
pub const NEWLINE: u8 = 10;

/// The decimal digits of `n`, most significant first, as ASCII bytes.
pub open spec fn decimal(n: nat) -> Seq<u8>
    decreases n,
{
    if n < 10 {
        seq![(48 + n) as u8]
    } else {
        decimal(n / 10).push((48 + n % 10) as u8)
    }
}

/// `worker `
pub open spec fn worker_tag() -> Seq<u8> {
    seq![119u8, 111u8, 114u8, 107u8, 101u8, 114u8, 32u8]
}

/// `, counter=`
pub open spec fn counter_tag() -> Seq<u8> {
    seq![44u8, 32u8, 99u8, 111u8, 117u8, 110u8, 116u8, 101u8, 114u8, 61u8]
}

/// `, delay=`
pub open spec fn delay_tag() -> Seq<u8> {
    seq![44u8, 32u8, 100u8, 101u8, 108u8, 97u8, 121u8, 61u8]
}

/// `s` and the newline that closes a record.
pub open spec fn line_end() -> Seq<u8> {
    seq![115u8, NEWLINE]
}

/// The record a worker leaves in the log:
/// `worker <index>, counter=<value>, delay=<seconds>s` and a newline.
pub open spec fn line_spec(index: nat, counter: nat, delay: nat) -> Seq<u8> {
    worker_tag() + decimal(index) + counter_tag() + decimal(counter) + delay_tag() + decimal(delay)
        + line_end()
}

/// One line of text: it is not empty, ends in a newline and holds no other.
pub open spec fn is_line(s: Seq<u8>) -> bool {
    &&& s.len() > 0
    &&& s.last() == NEWLINE
    &&& forall|i: int| 0 <= i < s.len() - 1 ==> s[i] != NEWLINE
}

/// The number of newlines in `s`.
pub open spec fn newline_count(s: Seq<u8>) -> nat
    decreases s.len(),
{
    if s.len() == 0 {
        0
    } else {
        newline_count(s.drop_last()) + if s.last() == NEWLINE { 1nat } else { 0nat }
    }
}

/// Every byte of a decimal rendering is an ASCII digit.
pub proof fn lemma_decimal_digits(n: nat)
    ensures
        decimal(n).len() > 0,
        forall|i: int| 0 <= i < decimal(n).len() ==> 48 <= #[trigger] decimal(n)[i] <= 57,
    decreases n,
{
    if n >= 10 {
        lemma_decimal_digits(n / 10);
    }
}

/// Counting newlines distributes over concatenation.
pub proof fn lemma_newline_count_concat(a: Seq<u8>, b: Seq<u8>)
    ensures
        newline_count(a + b) == newline_count(a) + newline_count(b),
    decreases b.len(),
{
    if b.len() == 0 {
        assert(a + b =~= a);
    } else {
        lemma_newline_count_concat(a, b.drop_last());
        assert((a + b).drop_last() =~= a + b.drop_last());
    }
}

/// A single line holds exactly one newline.
pub proof fn lemma_line_has_one_newline(s: Seq<u8>)
    requires
        is_line(s),
    ensures
        newline_count(s) == 1,
{
    let body = s.drop_last();
    assert forall|k: nat| k <= body.len() implies newline_count(#[trigger] body.subrange(0, k as int)) == 0 by {
        lemma_no_newline_prefix(body, k);
    }
    assert(body.subrange(0, body.len() as int) =~= body);
}

proof fn lemma_no_newline_prefix(body: Seq<u8>, k: nat)
    requires
        k <= body.len(),
        forall|i: int| 0 <= i < body.len() ==> body[i] != NEWLINE,
    ensures
        newline_count(body.subrange(0, k as int)) == 0,
    decreases k,
{
    if k > 0 {
        lemma_no_newline_prefix(body, (k - 1) as nat);
        assert(body.subrange(0, k as int).drop_last() =~= body.subrange(0, k - 1));
    }
}

/// Every worker record is a single line of text.
pub proof fn lemma_record_is_line(index: nat, counter: nat, delay: nat)
    ensures
        is_line(line_spec(index, counter, delay)),
{
    lemma_decimal_digits(index);
    lemma_decimal_digits(counter);
    lemma_decimal_digits(delay);
    let s = line_spec(index, counter, delay);
    let a = worker_tag() + decimal(index);
    let b = a + counter_tag();
    let c = b + decimal(counter);
    let d = c + delay_tag();
    let e = d + decimal(delay);
    assert(s =~= e + line_end());
    assert forall|i: int| 0 <= i < s.len() - 1 implies s[i] != NEWLINE by {
        if i >= e.len() {
        } else if i >= d.len() {
            assert(s[i] == decimal(delay)[i - d.len()]);
        } else if i >= c.len() {
        } else if i >= b.len() {
            assert(s[i] == decimal(counter)[i - b.len()]);
        } else if i >= a.len() {
        } else if i >= worker_tag().len() {
            assert(s[i] == decimal(index)[i - worker_tag().len()]);
        }
    }
}

/// Appends the decimal digits of `n`.
fn push_decimal(out: &mut Vec<u8>, n: u64)
    ensures
        final(out)@ == old(out)@ + decimal(n as nat),
    decreases n,
{
    if n >= 10 {
        push_decimal(out, n / 10);
    }
    out.push((48 + n % 10) as u8);
    proof {
        if n < 10 {
            assert(decimal(n as nat) =~= seq![(48 + n) as u8]);
        }
    }
    assert(final(out)@ =~= old(out)@ + decimal(n as nat));
}

/// Appends every byte of `src`.
pub(crate) fn push_bytes(out: &mut Vec<u8>, src: &Vec<u8>)
    ensures
        final(out)@ == old(out)@ + src@,
{
    let mut i: usize = 0;
    while i < src.len()
        invariant
            i <= src@.len(),
            out@ == old(out)@ + src@.subrange(0, i as int),
        decreases src@.len() - i,
    {
        out.push(src[i]);
        i = i + 1;
        assert(out@ =~= old(out)@ + src@.subrange(0, i as int));
    }
    assert(src@.subrange(0, i as int) =~= src@);
}

/// Whether `s` is one line of text.
pub fn check_line(s: &Vec<u8>) -> (r: bool)
    ensures
        r == is_line(s@),
{
    let n = s.len();
    if n == 0 || s[n - 1] != NEWLINE {
        return false;
    }
    let mut i: usize = 0;
    while i < n - 1
        invariant
            n == s@.len(),
            n > 0,
            i <= n - 1,
            forall|j: int| 0 <= j < i ==> s@[j] != NEWLINE,
        decreases n - 1 - i,
    {
        if s[i] == NEWLINE {
            return false;
        }
        i = i + 1;
    }
    true
}

/// Renders the log record of worker `index`, which saw the counter at
/// `counter` after sleeping `delay` seconds.
pub fn format_line(index: usize, counter: usize, delay: u64) -> (r: Vec<u8>)
    ensures
        r@ == line_spec(index as nat, counter as nat, delay as nat),
        is_line(r@),
{
    let mut out: Vec<u8> = vec![119u8, 111u8, 114u8, 107u8, 101u8, 114u8, 32u8];
    assert(out@ =~= worker_tag());
    push_decimal(&mut out, index as u64);
    let counter_text: Vec<u8> = vec![44u8, 32u8, 99u8, 111u8, 117u8, 110u8, 116u8, 101u8, 114u8, 61u8];
    assert(counter_text@ =~= counter_tag());
    push_bytes(&mut out, &counter_text);
    push_decimal(&mut out, counter as u64);
    let delay_text: Vec<u8> = vec![44u8, 32u8, 100u8, 101u8, 108u8, 97u8, 121u8, 61u8];
    assert(delay_text@ =~= delay_tag());
    push_bytes(&mut out, &delay_text);
    push_decimal(&mut out, delay);
    out.push(115u8);
    out.push(NEWLINE);
    assert(out@ =~= line_spec(index as nat, counter as nat, delay as nat));
    proof {
        lemma_record_is_line(index as nat, counter as nat, delay as nat);
    }
    out
}

} // verus!
