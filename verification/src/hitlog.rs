//! The hit log: every confirmed hit is formatted as one fixed record block
//! (secret line, public-identity line, address line, optional balance line,
//! blank separator) and appended to an append-only sequence of blocks. An
//! append adds exactly one block at the end and never disturbs earlier ones.

use vstd::prelude::*;
use vstd::string::*;

verus! {

/// The decimal digit character for one digit value.
pub open spec fn spec_digit_char(d: nat) -> char {
    if d == 0 {
        '0'
    } else if d == 1 {
        '1'
    } else if d == 2 {
        '2'
    } else if d == 3 {
        '3'
    } else if d == 4 {
        '4'
    } else if d == 5 {
        '5'
    } else if d == 6 {
        '6'
    } else if d == 7 {
        '7'
    } else if d == 8 {
        '8'
    } else {
        '9'
    }
}

/// Decimal rendering of a natural number, most significant digit first.
pub open spec fn spec_dec_digits(n: nat) -> Seq<char>
    decreases n,
{
    if n < 10 {
        seq![spec_digit_char(n)]
    } else {
        spec_dec_digits(n / 10).push(spec_digit_char(n % 10))
    }
}

/// Decimal rendering of a signed balance.
pub open spec fn spec_i64_dec(v: i64) -> Seq<char> {
    if v >= 0 {
        spec_dec_digits(v as nat)
    } else {
        "-"@ + spec_dec_digits((-(v as int)) as nat)
    }
}

fn digit_str(d: u64) -> (r: &'static str)
    requires
        d < 10,
    ensures
        r@ == seq![spec_digit_char(d as nat)],
{
    let r: &'static str = if d == 0 {
        "0"
    } else if d == 1 {
        "1"
    } else if d == 2 {
        "2"
    } else if d == 3 {
        "3"
    } else if d == 4 {
        "4"
    } else if d == 5 {
        "5"
    } else if d == 6 {
        "6"
    } else if d == 7 {
        "7"
    } else if d == 8 {
        "8"
    } else {
        "9"
    };
    proof {
        reveal_strlit("0");
        reveal_strlit("1");
        reveal_strlit("2");
        reveal_strlit("3");
        reveal_strlit("4");
        reveal_strlit("5");
        reveal_strlit("6");
        reveal_strlit("7");
        reveal_strlit("8");
        reveal_strlit("9");
        assert(r@ =~= seq![spec_digit_char(d as nat)]);
    }
    r
}

/// Renders a natural number in decimal.
pub fn u64_dec(n: u64) -> (r: String)
    ensures
        r@ == spec_dec_digits(n as nat),
    decreases n,
{
    if n < 10 {
        digit_str(n).to_owned()
    } else {
        let mut s = u64_dec(n / 10);
        let d = digit_str(n % 10);
        s.append(d);
        proof {
            assert(spec_dec_digits((n / 10) as nat) + d@ =~= spec_dec_digits(
                (n / 10) as nat,
            ).push(spec_digit_char((n % 10) as nat)));
        }
        s
    }
}

/// Renders a signed balance in decimal.
pub fn i64_dec(v: i64) -> (r: String)
    ensures
        r@ == spec_i64_dec(v),
{
    if v >= 0 {
        u64_dec(v as u64)
    } else {
        let mag: u64 = (-(v as i128)) as u64;
        let mut s = "-".to_owned();
        let digits = u64_dec(mag);
        s.append(digits.as_str());
        s
    }
}

/// One confirmed match as it is durably recorded: the secret material, the
/// derived public identity, the matched address, and the stored optional
/// balance.
pub struct HitRecord {
    pub secret: String,
    pub public_id: String,
    pub address: String,
    pub balance: Option<i64>,
}

/// The one well-formed record block of a hit: secret line, public-identity
/// line, address line, a balance line when a balance is stored, and a blank
/// separator line.
pub open spec fn spec_record_block(
    secret: Seq<char>,
    public_id: Seq<char>,
    address: Seq<char>,
    balance: Option<i64>,
) -> Seq<char> {
    "secret:"@ + secret + "\n"@ + "public:"@ + public_id + "\n"@ + "address:"@ + address + "\n"@
        + (match balance {
        Some(b) => "balance:"@ + spec_i64_dec(b) + "\n"@,
        None => Seq::<char>::empty(),
    }) + "\n"@
}

/// Formats one confirmed hit as its record block.
pub fn format_hit_record(rec: &HitRecord) -> (r: String)
    ensures
        r@ == spec_record_block(rec.secret@, rec.public_id@, rec.address@, rec.balance),
{
    let mut s = "secret:".to_owned();
    s.append(rec.secret.as_str());
    s.append("\n");
    s.append("public:");
    s.append(rec.public_id.as_str());
    s.append("\n");
    s.append("address:");
    s.append(rec.address.as_str());
    s.append("\n");
    match rec.balance {
        Some(b) => {
            s.append("balance:");
            let d = i64_dec(b);
            s.append(d.as_str());
            s.append("\n");
        },
        None => (),
    }
    s.append("\n");
    proof {
        assert(s@ =~= spec_record_block(rec.secret@, rec.public_id@, rec.address@, rec.balance));
    }
    s
}

/// The append-only log of confirmed hits, one rendered record block per
/// entry, oldest first.
pub struct HitLog {
    entries: Vec<String>,
}

impl View for HitLog {
    type V = Seq<Seq<char>>;

    closed spec fn view(&self) -> Seq<Seq<char>> {
        self.entries.deep_view()
    }
}

impl HitLog {
    /// An empty log.
    pub fn new() -> (l: HitLog)
        ensures
            l@ =~= Seq::<Seq<char>>::empty(),
    {
        HitLog { entries: Vec::new() }
    }

    /// Number of recorded hits.
    pub fn len(&self) -> (n: usize)
        ensures
            n == self@.len(),
    {
        self.entries.len()
    }

    /// The `i`-th recorded block, oldest first.
    pub fn entry(&self, i: usize) -> (r: &String)
        requires
            i < self@.len(),
        ensures
            r@ == self@[i as int],
    {
        &self.entries[i]
    }

    /// Records one confirmed hit: appends its record block at the end of the
    /// log, touching nothing else, and returns a copy of the block for the
    /// caller to persist durably.
    pub fn append_hit(&mut self, rec: &HitRecord) -> (block: String)
        ensures
            block@ == spec_record_block(rec.secret@, rec.public_id@, rec.address@, rec.balance),
            final(self)@ == old(self)@.push(block@),
    {
        let b = format_hit_record(rec);
        let copy = b.clone();
        self.entries.push(b);
        proof {
            assert(self@ =~= old(self)@.push(copy@));
        }
        copy
    }
}

/// Law: appending a block to the log adds exactly that block at the end;
/// every record already in the log stays, unchanged and in place, so
/// concurrent hits serialized through appends yield exactly one well-formed
/// block each, none interleaved, truncated or lost.
pub proof fn lemma_append_only(log0: Seq<Seq<char>>, log1: Seq<Seq<char>>, block: Seq<char>)
    requires
        log1 == log0.push(block),
    ensures
        log1.len() == log0.len() + 1,
        forall|i: int| 0 <= i < log0.len() ==> log1[i] == log0[i],
        log1[log0.len() as int] == block,
{
}

} // verus!
