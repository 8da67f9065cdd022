use mini_docker::cli::{Cli, Command, PullArgs, RunArgs};
use mini_docker::layer::{decimal, file_short_id, layer_file_name, short_id};
use mini_docker::text::{after_last, contains_char, find_char, str_eq};

const DIGEST: &str = "sha256:a7730063fcfe708b222d34c4f07d633dfe087a28c05c4daaab2fa9943854c155";

#[test]
fn decimal_notation() {
    assert_eq!(decimal(0), "0");
    assert_eq!(decimal(7), "7");
    assert_eq!(decimal(10), "10");
    assert_eq!(decimal(4096), "4096");
    assert_eq!(decimal(usize::MAX), usize::MAX.to_string());
}

#[test]
fn layer_file_names() {
    assert_eq!(
        layer_file_name(0, DIGEST),
        "0_sha256:a7730063fcfe708b222d34c4f07d633dfe087a28c05c4daaab2fa9943854c155.tar.gz"
    );
    assert_eq!(layer_file_name(12, "sha256:ab"), "12_sha256:ab.tar.gz");
}

#[test]
fn short_digest_of_a_layer() {
    assert_eq!(short_id(DIGEST), "a7730063fcfe");
    assert_eq!(short_id("0123456789abcdefghij"), "789abcdefghi");
}

#[test]
fn short_digest_of_a_layer_file() {
    // What follows the last ':' of the file name, bytes 7 up to 19.
    let name = layer_file_name(3, DIGEST);
    assert_eq!(after_last(&name, ':'), "a7730063fcfe708b222d34c4f07d633dfe087a28c05c4daaab2fa9943854c155.tar.gz");
    assert_eq!(file_short_id(&name), "3fcfe708b222");
}

#[test]
fn last_segment() {
    assert_eq!(after_last("a:b:c", ':'), "c");
    assert_eq!(after_last("abc", ':'), "abc");
    assert_eq!(after_last("abc:", ':'), "");
    assert_eq!(after_last("", ':'), "");
}

#[test]
fn character_helpers() {
    assert_eq!(find_char("ab:cd:e", ':'), Some(2));
    assert_eq!(find_char("héllo:x", ':'), Some(5));
    assert_eq!(find_char("abc", ':'), None);
    assert!(contains_char("a/b", '/'));
    assert!(!contains_char("ab", '/'));
    assert!(str_eq("x86_64", "x86_64"));
    assert!(!str_eq("x86_64", "x86"));
    assert!(str_eq("", ""));
}

#[test]
fn command_line_values() {
    let run = RunArgs { image: "nginx".to_string(), command: "echo".to_string() };
    let cli = Cli { command: Command::Run(run.clone()) };
    match cli.command {
        Command::Run(r) => {
            assert_eq!(r.image, "nginx");
            assert_eq!(r.command, "echo");
        }
        Command::Pull(_) => panic!("wrong subcommand"),
    }
    let pull = PullArgs { image: "alpine".to_string() };
    assert_eq!(pull.clone().image, "alpine");
}
