use vhost_enumerator::constants::{
    index_arg, seclist_url, useragents, wordlists, SECLIST_BASE_URL, USERAGENT_LINUX,
    USERAGENT_MAC, USERAGENT_WINDOWS, WORDLIST_LARGE, WORDLIST_MEDIUM, WORDLIST_SMALL,
};

#[test]
fn index_selects_choice() {
    let arr = vec!["zero", "one", "two"];
    assert_eq!(index_arg("0", arr.clone()), "zero");
    assert_eq!(index_arg("1", arr.clone()), "one");
    assert_eq!(index_arg("2", arr.clone()), "two");
    assert_eq!(index_arg("+1", arr.clone()), "one");
    assert_eq!(index_arg("01", arr), "one");
}

#[test]
fn out_of_range_index_is_literal() {
    let arr = vec!["zero", "one", "two"];
    assert_eq!(index_arg("3", arr.clone()), "3");
    assert_eq!(index_arg("99999999999999999999999", arr), "99999999999999999999999");
}

#[test]
fn non_number_is_literal() {
    let arr = vec!["zero", "one"];
    assert_eq!(index_arg("/tmp/words.txt", arr.clone()), "/tmp/words.txt");
    assert_eq!(index_arg("-1", arr.clone()), "-1");
    assert_eq!(index_arg("", arr), "");
}

#[test]
fn empty_choices_keep_argument() {
    assert_eq!(index_arg("0", vec![]), "0");
}

#[test]
fn stock_lists_in_order() {
    assert_eq!(wordlists(), vec![WORDLIST_LARGE, WORDLIST_MEDIUM, WORDLIST_SMALL]);
    assert_eq!(WORDLIST_LARGE, "subdomains-top1million-110000.txt");
    assert_eq!(WORDLIST_SMALL, "subdomains-top1million-5000.txt");
    assert_eq!(useragents(), vec![USERAGENT_WINDOWS, USERAGENT_MAC, USERAGENT_LINUX]);
    assert!(USERAGENT_LINUX.contains("X11; Linux x86_64"));
}

#[test]
fn seclist_download_address() {
    assert_eq!(
        seclist_url(WORDLIST_MEDIUM),
        "https://raw.githubusercontent.com/danielmiessler/SecLists/master/Discovery/DNS/subdomains-top1million-20000.txt"
    );
    assert_eq!(seclist_url("x"), format!("{}/x", SECLIST_BASE_URL));
}
