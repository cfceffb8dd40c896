//! A counter over a numbered range that renders each value as a string, with
//! optional zero padding, for building ordered frame-file names.

use vstd::prelude::*;
use vstd::string::StringExecFns;

verus! {

/// The character for one decimal digit.
pub open spec fn spec_digit_char(d: int) -> char {
    if d == 0 {
        '0'
    } else if d == 1 {
        '1'
    } else if d == 2 {
        '2'
    } else if d == 3 {
        '3'
    } else if d == 4 {
        '4'
    } else if d == 5 {
        '5'
    } else if d == 6 {
        '6'
    } else if d == 7 {
        '7'
    } else if d == 8 {
        '8'
    } else {
        '9'
    }
}

/// The decimal rendering of a number, most significant digit first, without
/// leading zeros (except for zero itself).
pub open spec fn spec_decimal(n: nat) -> Seq<char>
    decreases n,
{
    if n < 10 {
        seq![spec_digit_char(n as int)]
    } else {
        spec_decimal(n / 10).push(spec_digit_char((n % 10) as int))
    }
}

/// The decimal rendering left-padded with zeros to at least `width`
/// characters.
pub open spec fn spec_padded_decimal(n: nat, width: nat) -> Seq<char> {
    if spec_decimal(n).len() >= width {
        spec_decimal(n)
    } else {
        Seq::new((width - spec_decimal(n).len()) as nat, |i: int| '0') + spec_decimal(n)
    }
}

/// A decimal rendering never outgrows the number itself (loose, but enough to
/// keep digit counters within machine bounds).
proof fn lemma_decimal_len_le(n: nat)
    ensures
        spec_decimal(n).len() <= n + 1,
    decreases n,
{
    if n >= 10 {
        lemma_decimal_len_le(n / 10);
    }
}

/// One decimal digit as a string slice.
fn digit_str(d: usize) -> (r: &'static str)
    requires
        d < 10,
    ensures
        r@ == seq![spec_digit_char(d as int)],
{
    proof {
        reveal_strlit("0");
        reveal_strlit("1");
        reveal_strlit("2");
        reveal_strlit("3");
        reveal_strlit("4");
        reveal_strlit("5");
        reveal_strlit("6");
        reveal_strlit("7");
        reveal_strlit("8");
        reveal_strlit("9");
    }
    let r = if d == 0 {
        "0"
    } else if d == 1 {
        "1"
    } else if d == 2 {
        "2"
    } else if d == 3 {
        "3"
    } else if d == 4 {
        "4"
    } else if d == 5 {
        "5"
    } else if d == 6 {
        "6"
    } else if d == 7 {
        "7"
    } else if d == 8 {
        "8"
    } else {
        "9"
    };
    proof {
        assert(r@ =~= seq![spec_digit_char(d as int)]);
    }
    r
}

/// Appends the decimal rendering of `n`.
fn push_decimal(out: &mut String, n: usize)
    ensures
        final(out)@ == old(out)@ + spec_decimal(n as nat),
    decreases n,
{
    if n < 10 {
        out.append(digit_str(n));
        proof {
            assert(final(out)@ =~= old(out)@ + spec_decimal(n as nat));
        }
    } else {
        push_decimal(out, n / 10);
        out.append(digit_str(n % 10));
        proof {
            assert(final(out)@ =~= old(out)@ + spec_decimal(n as nat));
        }
    }
}

/// The number of decimal digits of `n`.
fn decimal_len(n: usize) -> (r: usize)
    ensures
        r == spec_decimal(n as nat).len(),
    decreases n,
{
    if n < 10 {
        1
    } else {
        proof {
            lemma_decimal_len_le((n / 10) as nat);
        }
        let rest = decimal_len(n / 10);
        rest + 1
    }
}

/// A sequence of numbers carrying a prefix and a suffix, for generating an
/// ordered run of strings such as numbered frame-file names.
pub struct Sequence {
    /// String prefix.
    prefix: String,
    /// String suffix.
    suffix: String,
    /// The first value of the sequence.
    start: usize,
    /// The (inclusive) last value of the sequence.
    end: usize,
    /// Where in the sequence we currently are.
    current: usize,
    /// Whether values are left-padded with zeros to the width of the largest
    /// value of the sequence.
    pad: bool,
    pad_size: usize,
}

impl Sequence {
    /// The prefix put before each rendered value.
    pub closed spec fn spec_prefix(self) -> Seq<char> {
        self.prefix@
    }

    /// The suffix put after each rendered value.
    pub closed spec fn spec_suffix(self) -> Seq<char> {
        self.suffix@
    }

    /// The first value of the sequence.
    pub closed spec fn spec_start(self) -> int {
        self.start as int
    }

    /// The (inclusive) last value of the sequence.
    pub closed spec fn spec_end(self) -> int {
        self.end as int
    }

    /// The value the next call of `next` renders, when one is left.
    pub closed spec fn spec_current(self) -> int {
        self.current as int
    }

    /// The width values are padded to: the width of the largest value when
    /// padding is on, zero otherwise.
    pub closed spec fn spec_pad_width(self) -> nat {
        if self.pad {
            self.pad_size as nat
        } else {
            0
        }
    }

    /// The cursor stays within the range, and the range's end leaves room for
    /// the one-past-the-end cursor state.
    pub closed spec fn wf(self) -> bool {
        &&& self.start <= self.current <= self.end + 1
        &&& self.end < usize::MAX
        &&& (self.pad ==> self.pad_size == spec_decimal(self.end as nat).len())
    }

    /// What one value renders to: prefix, the padded decimal, suffix.
    pub open spec fn spec_rendered(self, value: nat) -> Seq<char> {
        self.spec_prefix() + spec_padded_decimal(value, self.spec_pad_width()) + self.spec_suffix()
    }

    /// Creates a new sequence running from `start` to `end` inclusive. With
    /// `pad`, every rendered value is left-padded with zeros to the width of
    /// the largest value of the sequence.
    pub fn new(prefix: &String, suffix: &String, start: usize, end: usize, pad: bool) -> (r:
        Sequence)
        requires
            start <= end,
            end < usize::MAX,
        ensures
            r.wf(),
            r.spec_prefix() == prefix@,
            r.spec_suffix() == suffix@,
            r.spec_start() == start,
            r.spec_end() == end,
            r.spec_current() == start,
            r.spec_pad_width() == if pad {
                spec_decimal(end as nat).len()
            } else {
                0nat
            },
    {
        let pad_size = if pad {
            decimal_len(end)
        } else {
            0
        };
        Sequence { prefix: prefix.clone(), suffix: suffix.clone(), start, end, current: start, pad, pad_size }
    }

    /// Renders the current value of the sequence and advances it.
    ///
    /// Returns the rendered string while the sequence has not ended
    /// (`current <= end`), and `None` once it has.
    pub fn next(&mut self) -> (r: Option<String>)
        requires
            old(self).wf(),
        ensures
            final(self).wf(),
            final(self).spec_prefix() == old(self).spec_prefix(),
            final(self).spec_suffix() == old(self).spec_suffix(),
            final(self).spec_start() == old(self).spec_start(),
            final(self).spec_end() == old(self).spec_end(),
            final(self).spec_pad_width() == old(self).spec_pad_width(),
            match r {
                Some(s) => {
                    &&& old(self).spec_current() <= old(self).spec_end()
                    &&& s@ == old(self).spec_rendered(old(self).spec_current() as nat)
                    &&& final(self).spec_current() == old(self).spec_current() + 1
                },
                None => {
                    &&& old(self).spec_current() == old(self).spec_end() + 1
                    &&& final(self).spec_current() == old(self).spec_current()
                },
            },
    {
        if self.current == self.end + 1 {
            return None;
        }
        let mut out = String::new();
        out.append(self.prefix.as_str());

        let width = if self.pad {
            self.pad_size
        } else {
            0
        };
        let dlen = decimal_len(self.current);
        let mut filled = dlen;
        while filled < width
            invariant
                dlen <= filled,
                filled <= width || filled == dlen,
                dlen == spec_decimal(self.current as nat).len(),
                out@ =~= self.prefix@ + Seq::new((filled - dlen) as nat, |i: int| '0'),
            decreases width - filled,
        {
            out.append(digit_str(0));
            proof {
                assert(out@ =~= self.prefix@ + Seq::new((filled + 1 - dlen) as nat, |i: int| '0'));
            }
            filled += 1;
        }
        push_decimal(&mut out, self.current);
        out.append(self.suffix.as_str());

        proof {
            assert(out@ =~= self.spec_rendered(self.current as nat));
        }
        self.current += 1;
        Some(out)
    }

    /// Restarts the sequence: the current value becomes the start value.
    pub fn restart(&mut self)
        requires
            old(self).wf(),
        ensures
            final(self).wf(),
            final(self).spec_prefix() == old(self).spec_prefix(),
            final(self).spec_suffix() == old(self).spec_suffix(),
            final(self).spec_start() == old(self).spec_start(),
            final(self).spec_end() == old(self).spec_end(),
            final(self).spec_pad_width() == old(self).spec_pad_width(),
            final(self).spec_current() == old(self).spec_start(),
    {
        self.current = self.start;
    }
}

} // verus!
