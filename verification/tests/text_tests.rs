use deadline_checker::decimal::{parse_u64, u64_to_decimal, ParseNumberError};
use deadline_checker::extract::{cookie_password, WalletType};
use deadline_checker::hexcodec::{decode_gensig, GensigError};
use deadline_checker::network::blockinfo_url;
use deadline_checker::plot::{adjust_deadline, net_difficulty};
use deadline_checker::verify::output_file_name;

#[test]
fn parse_u64_follows_std() {
    let cases = [
        "", "+", "-", "+5", "-5", "12a", "0", "007", "18446744073709551615",
        "18446744073709551616", "99999999999999999999x", "1 ", "１",
    ];
    for c in cases {
        let ours = parse_u64(c);
        let std = c.parse::<u64>();
        assert_eq!(ours.is_ok(), std.is_ok(), "{}", c);
        if let (Ok(a), Ok(b)) = (&ours, &std) {
            assert_eq!(a, b);
        }
    }
    assert_eq!(parse_u64(""), Err(ParseNumberError::Empty));
    assert_eq!(parse_u64("+"), Err(ParseNumberError::InvalidDigit));
    assert_eq!(parse_u64("-5"), Err(ParseNumberError::InvalidDigit));
    assert_eq!(parse_u64("+5"), Ok(5));
    assert_eq!(parse_u64("18446744073709551616"), Err(ParseNumberError::PosOverflow));
    assert_eq!(parse_u64("99999999999999999999x"), Err(ParseNumberError::PosOverflow));
    assert_eq!(parse_u64("1x99999999999999999999"), Err(ParseNumberError::InvalidDigit));
}

#[test]
fn decimal_roundtrip() {
    for n in [0u64, 9, 10, 123, 4398046511104, u64::MAX] {
        let s = u64_to_decimal(n);
        assert_eq!(s, n.to_string());
        assert_eq!(parse_u64(&s), Ok(n));
    }
}

#[test]
fn blockinfo_url_appends_height() {
    assert_eq!(
        blockinfo_url("https://burst.megash.it/burst", 5),
        "https://burst.megash.it/burst?requestType=getBlock&height=5"
    );
    assert_eq!(
        blockinfo_url("https://wallet.burst.cryptoguru.org/burst", 520000),
        "https://wallet.burst.cryptoguru.org/burst?requestType=getBlock&height=520000"
    );
    assert_eq!(blockinfo_url("", 0), "?requestType=getBlock&height=0");
}

#[test]
fn gensig_decoding() {
    let text = "00112233445566778899aabbccddeeff00112233445566778899AABBCCDDEEFF";
    let g = decode_gensig(text).unwrap();
    assert_eq!(g[0], 0x00);
    assert_eq!(g[1], 0x11);
    assert_eq!(g[10], 0xaa);
    assert_eq!(g[31], 0xff);
    assert_eq!(hex::encode(g), text.to_lowercase());
    assert_eq!(decode_gensig(&hex::encode(g)), Ok(g));
    assert_eq!(decode_gensig("abc"), Err(GensigError::InvalidHex));
    assert_eq!(decode_gensig("zz"), Err(GensigError::InvalidHex));
    assert_eq!(decode_gensig("abcd"), Err(GensigError::WrongLength));
    assert_eq!(decode_gensig(""), Err(GensigError::WrongLength));
}

#[test]
fn deadline_scaling() {
    assert_eq!(adjust_deadline(1000, 7), 142);
    assert_eq!(adjust_deadline(0, 1), 0);
    assert_eq!(net_difficulty(18325193796), 4398046511104 / 240 / 18325193796);
    assert_eq!(net_difficulty(1), 18325193796);
}

#[test]
fn output_file_names() {
    assert_eq!(output_file_name("blocks.csv"), "blocks_scoop_dl.csv");
    assert_eq!(output_file_name("a.csv.csv"), "a_scoop_dl.csv");
    assert_eq!(output_file_name("noext"), "noext_scoop_dl.csv");
    assert_eq!(output_file_name(""), "_scoop_dl.csv");
    assert_eq!(output_file_name("x.cs"), "x.cs_scoop_dl.csv");
}

#[test]
fn wallet_type_names() {
    assert_eq!(WalletType::from_name("burst-http"), Ok(WalletType::BurstHttp));
    assert_eq!(WalletType::from_name("database"), Ok(WalletType::BurstDB));
    assert_eq!(WalletType::from_name("bhd-rpc"), Ok(WalletType::BhdRpc));
    assert_eq!(WalletType::from_name("BHD-RPC"), Ok(WalletType::BhdRpc));
    assert_eq!(
        WalletType::from_name("BhdRpc"),
        Err("valid values: burst-http, database, bhd-rpc".to_string())
    );
    assert!(WalletType::from_name("").is_err());
    assert!(WalletType::from_name("burst-http ").is_err());
}

#[test]
fn cookie_password_skips_user() {
    assert_eq!(cookie_password("__cookie__:secretpass"), "secretpass");
    assert_eq!(cookie_password("__cookie__:"), "");
}
