use sixty_challenge_days::minigrep::{search, search_case_insensitive};
use sixty_challenge_days::text::lines;

#[test]
fn should_match_case_sensitive() {
    let query = "teste";
    let contents = r#"
9 03/03 Teste Funcional
10 09/03 Teste Estrutural
11 10/03 teste Estrutural
12 16/03 Apresentação TP 1
13 17/03 Apresentação TP 1
14 23/03 Revisão Prova 1
15 24/03 Prova 1"#;

    assert_eq!(vec!["11 10/03 teste Estrutural"], search(query, contents));
}

#[test]
fn should_match_case_insensitive() {
    let query = "teste";
    let contents = r#"
9 03/03 Teste Funcional
10 09/03 Teste Estrutural
11 10/03 teste Estrutural
12 16/03 Apresentação TP 1
13 17/03 Apresentação TP 1
14 23/03 Revisão Prova 1
15 24/03 Prova 1"#;

    assert_eq!(
        vec![
            "9 03/03 Teste Funcional",
            "10 09/03 Teste Estrutural",
            "11 10/03 teste Estrutural"
        ],
        search_case_insensitive(query, contents)
    );
}

#[test]
fn lines_drop_carriage_returns_and_the_final_break() {
    assert_eq!(
        lines("a\r\nb\n\nc\n"),
        vec![vec!['a'], vec!['b'], vec![], vec!['c']]
    );
    assert_eq!(lines(""), Vec::<Vec<char>>::new());
}

#[test]
fn empty_query_matches_every_line() {
    assert_eq!(search("", "x\ny"), vec!["x", "y"]);
    assert_eq!(search("xyz", "x\ny"), Vec::<String>::new());
}
