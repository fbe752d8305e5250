use queuepeek::template::{
    fill_placeholders, interpolate_template, next_env_placeholder, replace_text, substitute_env,
};

#[test]
fn replace_all_occurrences() {
    assert_eq!(replace_text("a-b-c", "-", "+"), "a+b+c");
    assert_eq!(replace_text("aaa", "aa", "b"), "ba");
    assert_eq!(replace_text("none", "x", "y"), "none");
}

#[test]
fn builtin_placeholders() {
    let mut counter = 4;
    let r = fill_placeholders(
        "{{counter}} {{timestamp}} {{uuid}} {{random_int}}",
        &mut counter,
        1700000000,
        "u-1",
        1234567,
    );
    assert_eq!(r, "5 1700000000 u-1 234567");
    assert_eq!(counter, 5);
    let r = fill_placeholders("no placeholders", &mut counter, 1, "u", 2);
    assert_eq!(r, "no placeholders");
    assert_eq!(counter, 5);
}

#[test]
fn interpolation_advances_counter() {
    let mut counter = 0;
    let r = interpolate_template("#{{counter}}", &mut counter);
    assert_eq!(r, "#1");
    let r = interpolate_template("#{{counter}}", &mut counter);
    assert_eq!(r, "#2");
    let r = interpolate_template("{{uuid}}", &mut counter);
    assert_eq!(r.len(), 36);
}

#[test]
fn env_placeholders() {
    let p = next_env_placeholder("a {{env.HOME}} b").unwrap();
    assert_eq!(p.name, "HOME");
    assert_eq!(substitute_env("a {{env.HOME}} b", &p, "/root"), "a /root b");
    assert!(next_env_placeholder("a {{env.HOME b").is_none());
    assert!(next_env_placeholder("plain").is_none());
}

#[test]
fn uuid_placeholder_gives_a_version_four_uuid() {
    let mut counter = 0u64;
    let out = interpolate_template("id={{uuid}}", &mut counter);
    let u = out.strip_prefix("id=").unwrap();
    let cs: Vec<char> = u.chars().collect();
    assert_eq!(cs.len(), 36);
    for (i, c) in cs.iter().enumerate() {
        if [8, 13, 18, 23].contains(&i) {
            assert_eq!(*c, '-');
        } else {
            assert!(c.is_ascii_hexdigit() && !c.is_ascii_uppercase());
        }
    }
    assert_eq!(cs[14], '4');
    assert!(['8', '9', 'a', 'b'].contains(&cs[19]));
    assert_eq!(counter, 0);
}
