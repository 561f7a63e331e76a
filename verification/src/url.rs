//! URL assembly: percent-encoding and query-string construction for
//! the fixed request paths and the server-supplied chunk URLs.

use vstd::prelude::*;

use vstd::string::StringSliceAdditionalSpecFns;
use vstd::utf8::encode_utf8;

use crate::numeric::digit_char;

verus! {

/// Bytes that pass through a query string unencoded.
pub open spec fn is_unreserved(b: u8) -> bool {
    ||| (65 <= b && b <= 90)
    ||| (97 <= b && b <= 122)
    ||| (48 <= b && b <= 57)
    ||| b == 45
    ||| b == 46
    ||| b == 95
    ||| b == 126
}

/// The uppercase hex character of one value below sixteen.
pub open spec fn upper_hex_char(d: nat) -> char {
    if d < 10 {
        digit_char(d)
    } else if d == 10 {
        'A'
    } else if d == 11 {
        'B'
    } else if d == 12 {
        'C'
    } else if d == 13 {
        'D'
    } else if d == 14 {
        'E'
    } else {
        'F'
    }
}

/// The percent-encoding of a byte string: unreserved bytes pass, every
/// other byte becomes '%' and two uppercase hex digits.
pub open spec fn percent_encoded(bs: Seq<u8>) -> Seq<char>
    decreases bs.len(),
{
    if bs.len() == 0 {
        Seq::empty()
    } else {
        percent_encoded(bs.drop_last()) + (if is_unreserved(bs.last()) {
            seq![bs.last() as char]
        } else {
            seq!['%', upper_hex_char((bs.last() / 16) as nat), upper_hex_char(
                (bs.last() % 16) as nat,
            )]
        })
    }
}

/// The one-character string of an unreserved byte.
fn unreserved_str(b: u8) -> (r: &'static str)
    requires
        is_unreserved(b),
    ensures
        r@ =~= seq![b as char],
{
    let s: &'static str = match b {
        65 => "A",
        66 => "B",
        67 => "C",
        68 => "D",
        69 => "E",
        70 => "F",
        71 => "G",
        72 => "H",
        73 => "I",
        74 => "J",
        75 => "K",
        76 => "L",
        77 => "M",
        78 => "N",
        79 => "O",
        80 => "P",
        81 => "Q",
        82 => "R",
        83 => "S",
        84 => "T",
        85 => "U",
        86 => "V",
        87 => "W",
        88 => "X",
        89 => "Y",
        90 => "Z",
        97 => "a",
        98 => "b",
        99 => "c",
        100 => "d",
        101 => "e",
        102 => "f",
        103 => "g",
        104 => "h",
        105 => "i",
        106 => "j",
        107 => "k",
        108 => "l",
        109 => "m",
        110 => "n",
        111 => "o",
        112 => "p",
        113 => "q",
        114 => "r",
        115 => "s",
        116 => "t",
        117 => "u",
        118 => "v",
        119 => "w",
        120 => "x",
        121 => "y",
        122 => "z",
        48 => "0",
        49 => "1",
        50 => "2",
        51 => "3",
        52 => "4",
        53 => "5",
        54 => "6",
        55 => "7",
        56 => "8",
        57 => "9",
        45 => "-",
        46 => ".",
        95 => "_",
        126 => "~",
        _ => "~",
    };
    proof {
        reveal_strlit("A");
        reveal_strlit("B");
        reveal_strlit("C");
        reveal_strlit("D");
        reveal_strlit("E");
        reveal_strlit("F");
        reveal_strlit("G");
        reveal_strlit("H");
        reveal_strlit("I");
        reveal_strlit("J");
        reveal_strlit("K");
        reveal_strlit("L");
        reveal_strlit("M");
        reveal_strlit("N");
        reveal_strlit("O");
        reveal_strlit("P");
        reveal_strlit("Q");
        reveal_strlit("R");
        reveal_strlit("S");
        reveal_strlit("T");
        reveal_strlit("U");
        reveal_strlit("V");
        reveal_strlit("W");
        reveal_strlit("X");
        reveal_strlit("Y");
        reveal_strlit("Z");
        reveal_strlit("a");
        reveal_strlit("b");
        reveal_strlit("c");
        reveal_strlit("d");
        reveal_strlit("e");
        reveal_strlit("f");
        reveal_strlit("g");
        reveal_strlit("h");
        reveal_strlit("i");
        reveal_strlit("j");
        reveal_strlit("k");
        reveal_strlit("l");
        reveal_strlit("m");
        reveal_strlit("n");
        reveal_strlit("o");
        reveal_strlit("p");
        reveal_strlit("q");
        reveal_strlit("r");
        reveal_strlit("s");
        reveal_strlit("t");
        reveal_strlit("u");
        reveal_strlit("v");
        reveal_strlit("w");
        reveal_strlit("x");
        reveal_strlit("y");
        reveal_strlit("z");
        reveal_strlit("0");
        reveal_strlit("1");
        reveal_strlit("2");
        reveal_strlit("3");
        reveal_strlit("4");
        reveal_strlit("5");
        reveal_strlit("6");
        reveal_strlit("7");
        reveal_strlit("8");
        reveal_strlit("9");
        reveal_strlit("-");
        reveal_strlit(".");
        reveal_strlit("_");
        reveal_strlit("~");
    }
    s
}

fn upper_hex_str(d: u8) -> (r: &'static str)
    requires
        d < 16,
    ensures
        r@ =~= seq![upper_hex_char(d as nat)],
{
    if d < 10 {
        crate::numeric::digit_str(d)
    } else {
        let s: &'static str = match d {
            10 => "A",
            11 => "B",
            12 => "C",
            13 => "D",
            14 => "E",
            _ => "F",
        };
        proof {
            reveal_strlit("A");
            reveal_strlit("B");
            reveal_strlit("C");
            reveal_strlit("D");
            reveal_strlit("E");
            reveal_strlit("F");
        }
        s
    }
}

/// Appends the percent-encoding of `input`'s UTF-8 bytes to `buffer`.
pub fn encode_into(buffer: &mut String, input: &str)
    ensures
        final(buffer)@ == old(buffer)@ + percent_encoded(input.spec_bytes()),
{
    let bytes = input.as_bytes_vec();
    let len = bytes.len();
    let mut i: usize = 0;
    while i < len
        invariant
            bytes@ == input.spec_bytes(),
            len == bytes@.len(),
            i <= len,
            buffer@ == old(buffer)@ + percent_encoded(bytes@.take(i as int)),
        decreases len - i,
    {
        let ghost pre = buffer@;
        let b = bytes[i];
        if 65 <= b && b <= 90 || 97 <= b && b <= 122 || 48 <= b && b <= 57 || b == 45 || b == 46
            || b == 95 || b == 126 {
            buffer.append(unreserved_str(b));
        } else {
            buffer.append("%");
            buffer.append(upper_hex_str(b / 16));
            buffer.append(upper_hex_str(b % 16));
            proof {
                reveal_strlit("%");
            }
        }
        i = i + 1;
        proof {
            assert(bytes@.take(i as int).drop_last() =~= bytes@.take(i - 1));
            assert(bytes@.take(i as int).last() == bytes@[i - 1]);
            assert(buffer@ =~= old(buffer)@ + percent_encoded(bytes@.take(i as int)));
        }
    }
    proof {
        assert(bytes@.take(len as int) =~= bytes@);
    }
}

/// The query string of a parameter list: each pair percent-encoded,
/// joined `key=value` with '?' before the first and '&' between.
pub open spec fn query_string(params: Seq<(String, String)>) -> Seq<char>
    decreases params.len(),
{
    if params.len() == 0 {
        Seq::empty()
    } else {
        let sep: Seq<char> = if params.len() == 1 {
            seq!['?']
        } else {
            seq!['&']
        };
        query_string(params.drop_last()) + sep + percent_encoded(
            encode_utf8(params.last().0@),
        ) + seq!['='] + percent_encoded(encode_utf8(params.last().1@))
    }
}

/// Builds a request URL: the base, then each parameter percent-encoded
/// into the query string.
pub fn construct_url(base_url: &str, params: &Vec<(String, String)>) -> (r: String)
    ensures
        r@ == base_url@ + query_string(params@),
{
    let mut url = String::new();
    url.append(base_url);
    let len = params.len();
    let mut i: usize = 0;
    while i < len
        invariant
            len == params@.len(),
            i <= len,
            url@ == base_url@ + query_string(params@.take(i as int)),
        decreases len - i,
    {
        if i == 0 {
            url.append("?");
        } else {
            url.append("&");
        }
        encode_into(&mut url, params[i].0.as_str());
        url.append("=");
        encode_into(&mut url, params[i].1.as_str());
        i = i + 1;
        proof {
            reveal_strlit("?");
            reveal_strlit("&");
            reveal_strlit("=");
            assert(params@.take(i as int).drop_last() =~= params@.take(i - 1));
            assert(params@.take(i as int).last() == params@[i - 1]);
            assert(url@ =~= base_url@ + query_string(params@.take(i as int)));
        }
    }
    proof {
        assert(params@.take(len as int) =~= params@);
    }
    url
}

/// The host part of every request: the configured host, or the account
/// host `https://<account>.snowflakecomputing.com`.
pub fn build_base_url(host: &Option<String>, account_id: &str, path: &str) -> (r: String)
    ensures
        match host {
            Some(h) => r@ == h@ + path@,
            None => r@ == "https://"@ + account_id@ + ".snowflakecomputing.com"@ + path@,
        },
{
    let mut url = String::new();
    match host {
        Some(h) => {
            url.append(h.as_str());
        },
        None => {
            url.append("https://");
            url.append(account_id);
            url.append(".snowflakecomputing.com");
        },
    }
    url.append(path);
    url
}

/// Relies on uuid::Uuid::new_v4 and its hyphenated rendering for the
/// per-request id; the value is random, so nothing is promised of it.
#[verifier::external_body]
pub fn new_request_id() -> (r: String) {
    uuid::Uuid::new_v4().to_string()
}

} // verus!
