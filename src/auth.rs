//! Basic authentication: the credentials, base64-encoded.
use vstd::prelude::*;
use vstd::string::StringExecFns;
use vstd::utf8::encode_utf8;

verus! {

/// The 64 digits of base64, in order.
pub open spec fn alphabet() -> Seq<char> {
    "ABCDEFGHIJKLMNOPQRSTUVWXYZabcdefghijklmnopqrstuvwxyz0123456789+/"@
}

/// The base64 digit of `n`, for `n` below 64.
pub open spec fn digit(n: int) -> char {
    alphabet()[n]
}

/// The standard base64 encoding of `b`, padded with `=` to a multiple of four characters.
pub open spec fn base64(b: Seq<u8>) -> Seq<char>
    decreases b.len(),
{
    let b0 = b[0] as int;
    let b1 = if b.len() > 1 { b[1] as int } else { 0 };
    let b2 = if b.len() > 2 { b[2] as int } else { 0 };
    if b.len() == 0 {
        Seq::empty()
    } else if b.len() == 1 {
        seq![digit(b0 / 4), digit((b0 % 4) * 16), '=', '=']
    } else if b.len() == 2 {
        seq![digit(b0 / 4), digit((b0 % 4) * 16 + b1 / 16), digit((b1 % 16) * 4), '=']
    } else {
        seq![
            digit(b0 / 4),
            digit((b0 % 4) * 16 + b1 / 16),
            digit((b1 % 16) * 4 + b2 / 64),
            digit(b2 % 64),
        ] + base64(b.subrange(3, b.len() as int))
    }
}

/// The value of the `Authorization` header for `user` and `pass`.
pub open spec fn basic_auth(user: Seq<char>, pass: Seq<char>) -> Seq<char> {
    "Basic "@ + base64(encode_utf8(user + ":"@ + pass))
}

fn base64_digit(n: u8) -> (c: char)
    requires
        n < 64,
    ensures
        c == digit(n as int),
{
    let a = "ABCDEFGHIJKLMNOPQRSTUVWXYZabcdefghijklmnopqrstuvwxyz0123456789+/";
    proof {
        reveal_strlit("ABCDEFGHIJKLMNOPQRSTUVWXYZabcdefghijklmnopqrstuvwxyz0123456789+/");
    }
    a.get_char(n as usize)
}

/// The base64 encoding of `input`.
pub fn base64_encode(input: &[u8]) -> (r: String)
    ensures
        r@ == base64(input@),
{
    let mut result = String::new();
    let mut i: usize = 0;
    let n = input.len();
    assert(input@.subrange(0, n as int) =~= input@);
    assert(result@ + base64(input@) =~= base64(input@));
    while i < n
        invariant
            n == input@.len(),
            i <= n,
            result@ + base64(input@.subrange(i as int, n as int)) == base64(input@),
        decreases n - i,
    {
        let ghost rest = input@.subrange(i as int, n as int);
        let b0 = input[i];
        result.push(base64_digit(b0 / 4));
        if n - i == 1 {
            result.push(base64_digit((b0 % 4) * 16));
            result.push('=');
            result.push('=');
            i = n;
        } else if n - i == 2 {
            let b1 = input[i + 1];
            result.push(base64_digit((b0 % 4) * 16 + b1 / 16));
            result.push(base64_digit((b1 % 16) * 4));
            result.push('=');
            i = n;
        } else {
            let b1 = input[i + 1];
            let b2 = input[i + 2];
            result.push(base64_digit((b0 % 4) * 16 + b1 / 16));
            result.push(base64_digit((b1 % 16) * 4 + b2 / 64));
            result.push(base64_digit(b2 % 64));
            i = i + 3;
            assert(rest.subrange(3, rest.len() as int) =~= input@.subrange(i as int, n as int));
        }
        proof {
            if i == n {
                assert(input@.subrange(i as int, n as int) =~= Seq::<u8>::empty());
            }
        }
    }
    proof {
        assert(input@.subrange(n as int, n as int) =~= Seq::<u8>::empty());
    }
    result
}

/// The `Authorization` header value for Basic authentication as `username`.
pub fn basic_auth_header(username: &str, password: &str) -> (r: String)
    ensures
        r@ == basic_auth(username@, password@),
{
    let mut credentials = username.to_owned();
    credentials.append(":");
    credentials.append(password);
    let encoded = base64_encode(credentials.as_str().as_bytes());
    let mut header = "Basic ".to_owned();
    header.append(encoded.as_str());
    header
}

} // verus!
