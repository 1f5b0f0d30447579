use vstd::prelude::*;
use vstd::string::{StringExecFns, StringSliceAdditionalSpecFns};
use vstd::utf8::is_char_boundary;
use crate::text::str_chars;

verus! {

/// Where block headers are extracted from.
#[derive(Debug, Clone, Copy, PartialEq, Eq, Structural)]
pub enum WalletType {
    BurstHttp,
    BurstDB,
    BhdRpc,
}

/// `c` with ASCII upper-case letters turned to lower case.
pub open spec fn ascii_lower(c: char) -> char {
    if 'A' <= c && c <= 'Z' {
        ((c as int) + 32) as char
    } else {
        c
    }
}

/// Equal up to ASCII case, as `str::eq_ignore_ascii_case` compares text
/// with an ASCII name.
pub open spec fn eq_ignore_ascii_case(a: Seq<char>, b: Seq<char>) -> bool {
    &&& a.len() == b.len()
    &&& forall|i: int| 0 <= i < a.len() ==> ascii_lower(#[trigger] a[i]) == ascii_lower(b[i])
}

/// The name under which the command line offers a wallet type.
pub open spec fn wallet_type_name(t: WalletType) -> Seq<char> {
    match t {
        WalletType::BurstHttp => seq!['b', 'u', 'r', 's', 't', '-', 'h', 't', 't', 'p'],
        WalletType::BurstDB => seq!['d', 'a', 't', 'a', 'b', 'a', 's', 'e'],
        WalletType::BhdRpc => seq!['b', 'h', 'd', '-', 'r', 'p', 'c'],
    }
}

/// The wallet type named by `s`: `burst-http`, `database` or `bhd-rpc`,
/// compared without regard to ASCII case.
pub open spec fn spec_wallet_type(s: Seq<char>) -> Option<WalletType> {
    if eq_ignore_ascii_case(s, wallet_type_name(WalletType::BurstHttp)) {
        Some(WalletType::BurstHttp)
    } else if eq_ignore_ascii_case(s, wallet_type_name(WalletType::BurstDB)) {
        Some(WalletType::BurstDB)
    } else if eq_ignore_ascii_case(s, wallet_type_name(WalletType::BhdRpc)) {
        Some(WalletType::BhdRpc)
    } else {
        None
    }
}

fn lower_char(c: char) -> (l: char)
    ensures
        l == ascii_lower(c),
{
    if 'A' <= c && c <= 'Z' {
        let code: u32 = (c as u32) + 32;
        assert(code <= 0x7f);
        let b: u8 = code as u8;
        b as char
    } else {
        c
    }
}

fn matches_name(chars: &Vec<char>, name: &[char]) -> (r: bool)
    ensures
        r == eq_ignore_ascii_case(chars@, name@),
{
    if chars.len() != name.len() {
        return false;
    }
    let mut i: usize = 0;
    while i < chars.len()
        invariant
            i <= chars@.len(),
            chars@.len() == name@.len(),
            forall|j: int| 0 <= j < i ==> ascii_lower(chars@[j]) == ascii_lower(name@[j]),
        decreases chars@.len() - i,
    {
        if lower_char(chars[i]) != lower_char(name[i]) {
            return false;
        }
        i = i + 1;
    }
    true
}

impl WalletType {
    /// Reads a wallet type from the name the command line offers for it
    /// (`burst-http`, `database`, `bhd-rpc`).
    pub fn from_name(s: &str) -> (r: Result<WalletType, String>)
        ensures
            match spec_wallet_type(s@) {
                Some(t) => r == Ok::<WalletType, String>(t),
                None => r matches Err(e) && e@ == "valid values: burst-http, database, bhd-rpc"@,
            },
    {
        let chars = str_chars(s);
        let burst_http = ['b', 'u', 'r', 's', 't', '-', 'h', 't', 't', 'p'];
        let burst_db = ['d', 'a', 't', 'a', 'b', 'a', 's', 'e'];
        let bhd_rpc = ['b', 'h', 'd', '-', 'r', 'p', 'c'];
        assert(burst_http@ =~= wallet_type_name(WalletType::BurstHttp));
        assert(burst_db@ =~= wallet_type_name(WalletType::BurstDB));
        assert(bhd_rpc@ =~= wallet_type_name(WalletType::BhdRpc));
        if matches_name(&chars, burst_http.as_slice()) {
            Ok(WalletType::BurstHttp)
        } else if matches_name(&chars, burst_db.as_slice()) {
            Ok(WalletType::BurstDB)
        } else if matches_name(&chars, bhd_rpc.as_slice()) {
            Ok(WalletType::BhdRpc)
        } else {
            Err(String::from_str("valid values: burst-http, database, bhd-rpc"))
        }
    }
}

/// The password in a node's `.cookie` file: everything after the
/// `__cookie__:` user name, that is, from byte 11 on.
pub fn cookie_password(cookie: &str) -> (pass: &str)
    requires
        is_char_boundary(cookie.spec_bytes(), 11),
    ensures
        pass.spec_bytes() == cookie.spec_bytes().subrange(11, cookie.spec_bytes().len() as int),
{
    let (_, pass) = cookie.split_at(11);
    pass
}

} // verus!
