use atorsl::path::{chars_of, file_name, join};

#[test]
fn join_puts_one_separator_between() {
    assert_eq!(join("/src", "a.c"), "/src/a.c");
    assert_eq!(join("/src/", "a.c"), "/src/a.c");
    assert_eq!(join("src", "lib/a.c"), "src/lib/a.c");
}

#[test]
fn join_keeps_an_absolute_path() {
    assert_eq!(join("/src", "/usr/include/stdio.h"), "/usr/include/stdio.h");
    assert_eq!(join("", "/a"), "/a");
}

#[test]
fn join_from_an_empty_base() {
    assert_eq!(join("", "a.c"), "a.c");
    assert_eq!(join("", ""), "");
    assert_eq!(join("/src", ""), "/src/");
}

#[test]
fn join_to_the_generated_file() {
    assert_eq!(join("/src", "<compiler-generated>"), "/src/<compiler-generated>");
}

#[test]
fn file_name_is_the_final_component() {
    assert_eq!(file_name("/src/a.c"), "a.c");
    assert_eq!(file_name("a.c"), "a.c");
    assert_eq!(file_name("/tmp/app"), "app");
    assert_eq!(file_name("app"), "app");
    assert_eq!(file_name("/src/dir/"), "dir");
    assert_eq!(file_name("/src/dir//"), "dir");
    assert_eq!(file_name("foo.txt/."), "foo.txt");
    assert_eq!(file_name("foo.txt/.//"), "foo.txt");
    assert_eq!(file_name("./a"), "a");
    assert_eq!(file_name("a/...") , "...");
    assert_eq!(file_name("/src/ä.c"), "ä.c");
}

#[test]
fn file_name_of_a_path_without_one() {
    assert_eq!(file_name(""), "");
    assert_eq!(file_name("/"), "");
    assert_eq!(file_name("//"), "");
    assert_eq!(file_name("."), "");
    assert_eq!(file_name("./"), "");
    assert_eq!(file_name("./."), "");
    assert_eq!(file_name("/."), "");
    assert_eq!(file_name(".."), "");
    assert_eq!(file_name("foo.txt/.."), "");
    assert_eq!(file_name("a/../"), "");
}

#[test]
fn chars_of_keeps_every_character() {
    assert_eq!(chars_of("a/ä"), vec!['a', '/', 'ä']);
    assert_eq!(chars_of(""), Vec::<char>::new());
}
