use vstd::prelude::*;
use vstd::string::*;
use crate::reading::SensorData;

verus! {

pub open spec fn digit_char(d: int) -> char {
    if d == 0 {
        '0'
    } else if d == 1 {
        '1'
    } else if d == 2 {
        '2'
    } else if d == 3 {
        '3'
    } else if d == 4 {
        '4'
    } else if d == 5 {
        '5'
    } else if d == 6 {
        '6'
    } else if d == 7 {
        '7'
    } else if d == 8 {
        '8'
    } else {
        '9'
    }
}

/// Decimal rendering of a nonnegative integer, most significant digit
/// first, without leading zeros (a lone zero for zero itself).
pub open spec fn dec_str(n: int) -> Seq<char>
    decreases n,
{
    if n <= 9 {
        seq![digit_char(n)]
    } else {
        dec_str(n / 10).push(digit_char(n % 10))
    }
}

/// The fractional part for a residue `f` of millidegrees (0 < f < 1000):
/// three digits, zero padded on the left, trailing zeros removed.
pub open spec fn frac_str(f: int) -> Seq<char> {
    let h = digit_char(f / 100);
    let t = digit_char((f / 10) % 10);
    let u = digit_char(f % 10);
    if f % 10 != 0 {
        seq![h, t, u]
    } else if (f / 10) % 10 != 0 {
        seq![h, t]
    } else {
        seq![h]
    }
}

pub open spec fn mag_str(a: int) -> Seq<char> {
    dec_str(a / 1000) + (if a % 1000 == 0 {
        Seq::<char>::empty()
    } else {
        seq!['.'] + frac_str(a % 1000)
    })
}

/// Decimal rendering of a millidegree count as degrees Celsius: an
/// optional minus sign, the whole degrees, and a fractional part only
/// when the count is not a whole number of degrees.
pub open spec fn temp_str(m: int) -> Seq<char> {
    if m >= 0 {
        mag_str(m)
    } else {
        seq!['-'] + mag_str(-m)
    }
}

/// One snapshot entry: the sensor id as key, an object with the
/// timestamp string and the temperature number as value.
pub open spec fn entry_str(d: SensorData) -> Seq<char> {
    "\n  \""@ + d.id@ + "\": {\n    \"timestamp\": \""@ + d.timestamp@
        + "\",\n    \"temperature\": "@ + temp_str(d.millidegrees as int) + "\n  }"@
}

/// All entries of a snapshot, separated by commas, with none after the
/// last.
pub open spec fn entries_str(s: Seq<SensorData>) -> Seq<char>
    decreases s.len(),
{
    if s.len() == 0 {
        Seq::empty()
    } else if s.len() == 1 {
        entry_str(s[0])
    } else {
        entries_str(s.drop_last()) + ","@ + entry_str(s.last())
    }
}

/// The JSON document for one cycle's readings: the empty object (with a
/// trailing newline) when there are none, else the entries between
/// braces.
pub open spec fn json_str(s: Seq<SensorData>) -> Seq<char> {
    if s.len() == 0 {
        "{}\n"@
    } else {
        "{"@ + entries_str(s) + "\n}\n"@
    }
}

/// An empty reading set serializes to exactly the empty JSON object,
/// closed by a newline.
pub proof fn lemma_empty_snapshot()
    ensures
        json_str(Seq::<SensorData>::empty()) == "{}\n"@,
{
}

/// A snapshot of two readings holds the two entries between the braces
/// with a single comma between them and none after the last.
pub proof fn lemma_two_reading_snapshot(a: SensorData, b: SensorData)
    ensures
        json_str(seq![a, b]) == "{"@ + entry_str(a) + ","@ + entry_str(b) + "\n}\n"@,
{
    let s = seq![a, b];
    assert(s.drop_last() =~= seq![a]);
    assert(s.last() == b);
    assert(entries_str(seq![a]) == entry_str(a));
    assert(json_str(s) =~= "{"@ + entry_str(a) + ","@ + entry_str(b) + "\n}\n"@);
}

fn digit_str(d: u64) -> (r: &'static str)
    requires
        d <= 9,
    ensures
        r@ == seq![digit_char(d as int)],
{
    if d == 0 {
        proof {
            reveal_strlit("0");
            assert("0"@ =~= seq![digit_char(0int)]);
        }
        "0"
    } else if d == 1 {
        proof {
            reveal_strlit("1");
            assert("1"@ =~= seq![digit_char(1int)]);
        }
        "1"
    } else if d == 2 {
        proof {
            reveal_strlit("2");
            assert("2"@ =~= seq![digit_char(2int)]);
        }
        "2"
    } else if d == 3 {
        proof {
            reveal_strlit("3");
            assert("3"@ =~= seq![digit_char(3int)]);
        }
        "3"
    } else if d == 4 {
        proof {
            reveal_strlit("4");
            assert("4"@ =~= seq![digit_char(4int)]);
        }
        "4"
    } else if d == 5 {
        proof {
            reveal_strlit("5");
            assert("5"@ =~= seq![digit_char(5int)]);
        }
        "5"
    } else if d == 6 {
        proof {
            reveal_strlit("6");
            assert("6"@ =~= seq![digit_char(6int)]);
        }
        "6"
    } else if d == 7 {
        proof {
            reveal_strlit("7");
            assert("7"@ =~= seq![digit_char(7int)]);
        }
        "7"
    } else if d == 8 {
        proof {
            reveal_strlit("8");
            assert("8"@ =~= seq![digit_char(8int)]);
        }
        "8"
    } else {
        proof {
            reveal_strlit("9");
            assert("9"@ =~= seq![digit_char(9int)]);
        }
        "9"
    }
}

fn push_dec(out: &mut String, n: u64)
    ensures
        final(out)@ == old(out)@ + dec_str(n as int),
    decreases n,
{
    if n <= 9 {
        out.append(digit_str(n));
        proof {
            assert(final(out)@ =~= old(out)@ + dec_str(n as int));
        }
    } else {
        push_dec(out, n / 10);
        out.append(digit_str(n % 10));
        proof {
            assert((n / 10) as int == n as int / 10);
            assert((n % 10) as int == n as int % 10);
            assert(final(out)@ =~= old(out)@ + dec_str(n as int));
        }
    }
}

/// Render a millidegree count as its decimal degrees-Celsius string.
pub fn format_temperature(millidegrees: i64) -> (r: String)
    requires
        -100000 <= millidegrees <= 100000,
    ensures
        r@ == temp_str(millidegrees as int),
{
    let mut out = String::new();
    let a: u64;
    if millidegrees < 0 {
        out.append("-");
        proof {
            reveal_strlit("-");
            assert(out@ =~= seq!['-']);
        }
        a = (-millidegrees) as u64;
    } else {
        a = millidegrees as u64;
    }
    let ghost base = out@;
    push_dec(&mut out, a / 1000);
    let f = a % 1000;
    if f != 0 {
        out.append(".");
        proof {
            reveal_strlit(".");
            assert("."@ =~= seq!['.']);
        }
        let h = f / 100;
        let t = (f / 10) % 10;
        let u = f % 10;
        out.append(digit_str(h));
        if t != 0 || u != 0 {
            out.append(digit_str(t));
        }
        if u != 0 {
            out.append(digit_str(u));
        }
        proof {
            assert((f / 100) as int == (a as int % 1000) / 100);
            assert(((f / 10) % 10) as int == ((a as int % 1000) / 10) % 10);
            assert((f % 10) as int == (a as int % 1000) % 10);
            assert(out@ =~= base + mag_str(a as int));
        }
    } else {
        proof {
            assert(out@ =~= base + mag_str(a as int));
        }
    }
    proof {
        assert(out@ =~= temp_str(millidegrees as int));
    }
    out
}

/// Build the JSON snapshot for one cycle's readings, exactly as
/// `json_str` lays it out.
///
/// No two sensors should share an id; if readings with equal ids are
/// handed in anyway, each is emitted in order, and a JSON consumer that
/// keeps the last occurrence of a repeated key sees the last one win.
pub fn make_json(data: &Vec<SensorData>) -> (r: String)
    requires
        forall|i: int| 0 <= i < data@.len() ==> data@[i].valid(),
    ensures
        r@ == json_str(data@),
{
    if data.len() == 0 {
        return String::from_str("{}\n");
    }
    let mut out = String::from_str("{");
    proof {
        assert(out@ =~= "{"@ + entries_str(data@.take(0)));
    }
    let mut i: usize = 0;
    while i < data.len()
        invariant
            i <= data@.len(),
            forall|k: int| 0 <= k < data@.len() ==> data@[k].valid(),
            out@ == "{"@ + entries_str(data@.take(i as int)),
        decreases data@.len() - i,
    {
        if i > 0 {
            out.append(",");
        }
        out.append("\n  \"");
        out.append(data[i].id.as_str());
        out.append("\": {\n    \"timestamp\": \"");
        out.append(data[i].timestamp.as_str());
        out.append("\",\n    \"temperature\": ");
        let t = format_temperature(data[i].millidegrees);
        out.append(t.as_str());
        out.append("\n  }");
        proof {
            let k = i as int;
            assert(data@.take(k + 1).drop_last() =~= data@.take(k));
            assert(data@.take(k + 1).last() == data@[k]);
            if i == 0 {
                assert(entries_str(data@.take(1)) == entry_str(data@[0]));
            }
            assert(out@ =~= "{"@ + entries_str(data@.take(k + 1)));
        }
        i = i + 1;
    }
    out.append("\n}\n");
    proof {
        assert(data@.take(data@.len() as int) =~= data@);
        assert(out@ =~= json_str(data@));
    }
    out
}

} // verus!
