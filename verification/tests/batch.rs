use statement_cache::batch::push_value_groups;

fn insert_users_text(rows: usize) -> String {
    let mut text = b"INSERT INTO users (name, hair_color) VALUES".to_vec();
    push_value_groups(&mut text, rows);
    String::from_utf8(text).unwrap()
}

fn count(text: &str, wanted: char) -> usize {
    text.chars().filter(|c| *c == wanted).count()
}

#[test]
fn no_rows_append_nothing() {
    let mut text = b"VALUES".to_vec();
    push_value_groups(&mut text, 0);
    assert_eq!(text, b"VALUES".to_vec());
}

#[test]
fn one_row_has_no_comma_before_it() {
    let mut text = Vec::new();
    push_value_groups(&mut text, 1);
    assert_eq!(String::from_utf8(text).unwrap(), " ($1, $2)");
}

#[test]
fn three_rows_name_six_parameters() {
    assert_eq!(
        insert_users_text(3),
        "INSERT INTO users (name, hair_color) VALUES ($1, $2), ($3, $4), ($5, $6)"
    );
}

#[test]
fn parameter_numbers_grow_past_one_digit() {
    let mut text = Vec::new();
    push_value_groups(&mut text, 6);
    assert_eq!(
        String::from_utf8(text).unwrap(),
        " ($1, $2), ($3, $4), ($5, $6), ($7, $8), ($9, $10), ($11, $12)"
    );
}

#[test]
fn batch_insert_has_n_groups_and_2n_parameters() {
    for rows in [1usize, 2, 10, 99, 100, 500] {
        let mut text = Vec::new();
        push_value_groups(&mut text, rows);
        let text = String::from_utf8(text).unwrap();
        assert_eq!(count(&text, '('), rows);
        assert_eq!(count(&text, ')'), rows);
        assert_eq!(count(&text, '$'), 2 * rows);
        assert!(text.is_ascii());
        assert!(text.ends_with(&format!("(${}, ${})", 2 * rows - 1, 2 * rows)));
    }
}

#[test]
fn existing_text_is_kept() {
    let mut text = b"INSERT INTO posts (user_id, title) VALUES".to_vec();
    push_value_groups(&mut text, 2);
    assert_eq!(
        String::from_utf8(text).unwrap(),
        "INSERT INTO posts (user_id, title) VALUES ($1, $2), ($3, $4)"
    );
}
