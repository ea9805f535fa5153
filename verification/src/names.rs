use vstd::prelude::*;

verus! {

// ---------------------------------------------------------------------------
// Decimal formatting, verified, for the log file name.
// ---------------------------------------------------------------------------

/// The decimal digit character for `d`.
pub open spec fn dec_digit(d: int) -> char {
    if d == 0 {
        '0'
    } else if d == 1 {
        '1'
    } else if d == 2 {
        '2'
    } else if d == 3 {
        '3'
    } else if d == 4 {
        '4'
    } else if d == 5 {
        '5'
    } else if d == 6 {
        '6'
    } else if d == 7 {
        '7'
    } else if d == 8 {
        '8'
    } else {
        '9'
    }
}

/// The decimal form of `n`, most significant digit first, no leading zeros.
pub open spec fn spec_decimal(n: nat) -> Seq<char>
    decreases n,
{
    if n < 10 {
        seq![dec_digit(n as int)]
    } else {
        spec_decimal(n / 10) + seq![dec_digit((n % 10) as int)]
    }
}

/// `k` zero characters.
pub open spec fn zeros(k: nat) -> Seq<char> {
    Seq::new(k, |i: int| '0')
}

/// The decimal form of `n`, zero-padded on the left to at least ten digits.
pub open spec fn spec_padded10(n: nat) -> Seq<char> {
    if spec_decimal(n).len() >= 10 {
        spec_decimal(n)
    } else {
        zeros((10 - spec_decimal(n).len()) as nat) + spec_decimal(n)
    }
}

/// How many digits a value has, tier by tier.
proof fn lemma_decimal_len_ladder(n: nat)
    ensures
        n < 10 ==> spec_decimal(n).len() == 1,
        n < 100 ==> spec_decimal(n).len() <= 2,
        n < 1000 ==> spec_decimal(n).len() <= 3,
        n < 10000 ==> spec_decimal(n).len() <= 4,
        n < 100000 ==> spec_decimal(n).len() <= 5,
        n < 1000000 ==> spec_decimal(n).len() <= 6,
        n < 10000000 ==> spec_decimal(n).len() <= 7,
        n < 100000000 ==> spec_decimal(n).len() <= 8,
        n < 1000000000 ==> spec_decimal(n).len() <= 9,
        n >= 10 ==> spec_decimal(n).len() >= 2,
        n >= 100 ==> spec_decimal(n).len() >= 3,
        n >= 1000 ==> spec_decimal(n).len() >= 4,
        n >= 10000 ==> spec_decimal(n).len() >= 5,
        n >= 100000 ==> spec_decimal(n).len() >= 6,
        n >= 1000000 ==> spec_decimal(n).len() >= 7,
        n >= 10000000 ==> spec_decimal(n).len() >= 8,
        n >= 100000000 ==> spec_decimal(n).len() >= 9,
        n >= 1000000000 ==> spec_decimal(n).len() >= 10,
        spec_decimal(n).len() >= 1,
    decreases n,
{
    if n >= 10 {
        lemma_decimal_len_ladder(n / 10);
    }
}

proof fn lemma_dec_digit_injective(a: int, b: int)
    requires
        0 <= a < 10,
        0 <= b < 10,
        dec_digit(a) == dec_digit(b),
    ensures
        a == b,
{
}

/// Distinct values have distinct decimal forms.
pub proof fn lemma_decimal_injective(a: nat, b: nat)
    requires
        spec_decimal(a) == spec_decimal(b),
    ensures
        a == b,
    decreases a,
{
    lemma_decimal_len_ladder(a);
    lemma_decimal_len_ladder(b);
    if a < 10 && b < 10 {
        assert(spec_decimal(a)[0] == dec_digit(a as int));
        assert(spec_decimal(b)[0] == dec_digit(b as int));
        lemma_dec_digit_injective(a as int, b as int);
    } else if a >= 10 && b >= 10 {
        let la = spec_decimal(a / 10);
        let lb = spec_decimal(b / 10);
        assert(spec_decimal(a).last() == dec_digit((a % 10) as int));
        assert(spec_decimal(b).last() == dec_digit((b % 10) as int));
        lemma_dec_digit_injective((a % 10) as int, (b % 10) as int);
        assert(spec_decimal(a).drop_last() =~= la);
        assert(spec_decimal(b).drop_last() =~= lb);
        lemma_decimal_injective(a / 10, b / 10);
        assert(a == 10 * (a / 10) + a % 10) by {
            vstd::arithmetic::div_mod::lemma_fundamental_div_mod(a as int, 10);
        }
        assert(b == 10 * (b / 10) + b % 10) by {
            vstd::arithmetic::div_mod::lemma_fundamental_div_mod(b as int, 10);
        }
    }
}

fn push_digit(s: &mut String, d: u64)
    requires
        d < 10,
    ensures
        final(s)@ == old(s)@ + seq![dec_digit(d as int)],
{
    let c: &str = if d == 0 {
        "0"
    } else if d == 1 {
        "1"
    } else if d == 2 {
        "2"
    } else if d == 3 {
        "3"
    } else if d == 4 {
        "4"
    } else if d == 5 {
        "5"
    } else if d == 6 {
        "6"
    } else if d == 7 {
        "7"
    } else if d == 8 {
        "8"
    } else {
        "9"
    };
    proof {
        reveal_strlit("0");
        reveal_strlit("1");
        reveal_strlit("2");
        reveal_strlit("3");
        reveal_strlit("4");
        reveal_strlit("5");
        reveal_strlit("6");
        reveal_strlit("7");
        reveal_strlit("8");
        reveal_strlit("9");
        assert(c@ =~= seq![dec_digit(d as int)]);
    }
    s.append(c);
}

fn push_decimal(s: &mut String, n: u64)
    ensures
        final(s)@ == old(s)@ + spec_decimal(n as nat),
    decreases n,
{
    if n < 10 {
        push_digit(s, n);
    } else {
        push_decimal(s, n / 10);
        push_digit(s, n % 10);
        assert(s@ =~= old(s)@ + spec_decimal(n as nat));
    }
}

fn push_padded10(s: &mut String, n: u64)
    ensures
        final(s)@ == old(s)@ + spec_padded10(n as nat),
{
    proof {
        lemma_decimal_len_ladder(n as nat);
    }
    let digits: usize = if n < 10 {
        1
    } else if n < 100 {
        2
    } else if n < 1000 {
        3
    } else if n < 10000 {
        4
    } else if n < 100000 {
        5
    } else if n < 1000000 {
        6
    } else if n < 10000000 {
        7
    } else if n < 100000000 {
        8
    } else if n < 1000000000 {
        9
    } else {
        10
    };
    assert(digits <= spec_decimal(n as nat).len());
    assert(digits < 10 ==> digits == spec_decimal(n as nat).len());
    let mut i: usize = digits;
    proof {
        assert(zeros(0) =~= Seq::<char>::empty());
        assert(s@ =~= old(s)@ + zeros((digits - digits) as nat));
    }
    while i < 10
        invariant
            digits <= i <= 10,
            s@ == old(s)@ + zeros((i - digits) as nat),
        decreases 10 - i,
    {
        proof {
            reveal_strlit("0");
        }
        let z: &str = "0";
        s.append(z);
        proof {
            assert(zeros((i + 1 - digits) as nat) =~= zeros((i - digits) as nat) + z@);
            assert(s@ =~= old(s)@ + zeros((i + 1 - digits) as nat));
        }
        i = i + 1;
    }
    push_decimal(s, n);
    assert(s@ =~= old(s)@ + spec_padded10(n as nat));
}

// ---------------------------------------------------------------------------
// The log file name and the uniqueness counter.
// ---------------------------------------------------------------------------

/// The name of a writer-created log file: a fixed prefix, the zero-padded
/// creation time in seconds, the host name, the process id, and the
/// process-wide uniqueness counter, separated by dots.
pub open spec fn spec_log_file_name(secs: u64, host: Seq<char>, pid: u32, uid: u64) -> Seq<char> {
    "events.out.tfevents."@ + spec_padded10(secs as nat) + seq!['.'] + host + seq!['.']
        + spec_decimal(pid as nat) + seq!['.'] + spec_decimal(uid as nat)
}

/// Builds the name of a writer-created log file from the creation time in
/// seconds since the epoch, the host name, the process id and the
/// process-wide uniqueness counter value.
pub fn log_file_name(secs: u64, hostname: &str, pid: u32, uid: u64) -> (r: String)
    ensures
        r@ == spec_log_file_name(secs, hostname@, pid, uid),
{
    let mut s = String::new();
    s.append("events.out.tfevents.");
    push_padded10(&mut s, secs);
    let dot: &str = ".";
    proof {
        reveal_strlit(".");
        assert(dot@ =~= seq!['.']);
    }
    s.append(dot);
    s.append(hostname);
    s.append(dot);
    push_decimal(&mut s, pid as u64);
    s.append(dot);
    push_decimal(&mut s, uid);
    assert(s@ =~= spec_log_file_name(secs, hostname@, pid, uid));
    s
}

/// The process-wide uniqueness counter for writer-created file names,
/// explicit and injectable rather than a hidden global: the process holds
/// one instance and threads it through every writer construction.
pub struct UidCounter {
    next: u64,
}

impl UidCounter {
    /// The value the next draw returns.
    pub closed spec fn current(self) -> u64 {
        self.next
    }

    /// A fresh counter, seeded at one.
    pub fn new() -> (r: Self)
        ensures
            r.current() == 1,
    {
        UidCounter { next: 1 }
    }
}

/// Draws the next process-wide unique value: returns the counter's value and
/// advances it by one, wrapping silently at the top, so two successive draws
/// from one counter are never equal.
pub fn global_uid(counter: &mut UidCounter) -> (r: u64)
    ensures
        r == old(counter).current(),
        final(counter).current() == (if old(counter).current() == u64::MAX {
            0u64
        } else {
            (old(counter).current() + 1) as u64
        }),
        final(counter).current() != r,
{
    let uid = counter.next;
    counter.next = if counter.next == u64::MAX {
        0
    } else {
        counter.next + 1
    };
    uid
}

/// Two writers created against the same directory in the same second, on the
/// same host and in the same process, still get distinct file names: the
/// counter values differ, the name embeds the counter injectively, and the
/// names differ exactly in that trailing component.
pub proof fn lemma_unique_file_names(secs: u64, host: Seq<char>, pid: u32, uid1: u64, uid2: u64)
    requires
        uid1 != uid2,
    ensures
        spec_log_file_name(secs, host, pid, uid1) != spec_log_file_name(secs, host, pid, uid2),
{
    let p = "events.out.tfevents."@ + spec_padded10(secs as nat) + seq!['.'] + host + seq!['.']
        + spec_decimal(pid as nat) + seq!['.'];
    let a = spec_decimal(uid1 as nat);
    let b = spec_decimal(uid2 as nat);
    assert(spec_log_file_name(secs, host, pid, uid1) =~= p + a);
    assert(spec_log_file_name(secs, host, pid, uid2) =~= p + b);
    if p + a == p + b {
        assert(a =~= b) by {
            assert(a.len() == b.len());
            assert(forall|i: int|
                0 <= i < a.len() ==> #[trigger] a[i] == (p + a)[p.len() + i] && b[i] == (p + b)[
                    p.len() + i
                ]);
        }
        lemma_decimal_injective(uid1 as nat, uid2 as nat);
    }
}

} // verus!
