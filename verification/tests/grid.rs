use termlink::TableModel;
use termlink::TableStructure;

fn fillers(n: usize) -> Vec<String> {
    (0..n).map(|i| format!("f{:02}", i)).collect()
}

fn words(n: usize) -> Vec<String> {
    (0..n).map(|i| format!("w{:02}", i)).collect()
}

#[test]
fn table_structure_shape() {
    let ts = TableStructure::new();
    assert_eq!(ts.rows, 16);
    assert_eq!(ts.columns, 4);
    assert_eq!(ts.column_spacing, 1);
    assert_eq!(ts.hex_width, 1);
}

#[test]
fn grid_interleaves_sources_in_row_major_order() {
    let f = fillers(32);
    let w = words(32);
    let grid = TableModel::build_alternating_lists(4, 16, &f, &w);
    assert_eq!(grid.len(), 16);
    for row in &grid {
        assert_eq!(row.len(), 4);
    }
    assert_eq!(grid[0][0], "f00");
    assert_eq!(grid[0][1], "w00");
    assert_eq!(grid[0][2], "f01");
    assert_eq!(grid[0][3], "w01");
    assert_eq!(grid[1][0], "f02");
    assert_eq!(grid[1][1], "w02");
    assert_eq!(grid[15][2], "f31");
    assert_eq!(grid[15][3], "w31");
}

#[test]
fn grid_bijection_is_closed_form() {
    let f = fillers(32);
    let w = words(32);
    let grid = TableModel::build_alternating_lists(4, 16, &f, &w);
    for r in 0..16 {
        for c in 0..4 {
            let idx = r * 2 + c / 2;
            if c % 2 == 0 {
                assert_eq!(grid[r][c], f[idx]);
            } else {
                assert_eq!(grid[r][c], w[idx]);
            }
        }
    }
}

#[test]
fn noise_tokens_are_hex_with_one_decoration() {
    let pool = "!@#$%^&*()[]{}";
    let list = TableModel::build_hex_list();
    assert_eq!(list.len(), 32);
    for t in &list {
        assert!(t.len() >= 2);
        let body = &t[..t.len() - 1];
        let last = t.chars().last().unwrap();
        assert!(body.chars().all(|c| c.is_ascii_hexdigit() && !c.is_ascii_uppercase()));
        assert!(pool.contains(last));
    }
}

#[test]
fn noise_tokens_count_up_from_a_random_start() {
    let list = TableModel::build_hex_list();
    let vals: Vec<u32> = list
        .iter()
        .map(|t| u32::from_str_radix(&t[..t.len() - 1], 16).unwrap())
        .collect();
    for i in 1..vals.len() {
        assert_eq!(vals[i], vals[i - 1].wrapping_add(1));
    }
}

#[test]
fn word_list_is_a_draw_from_the_corpus() {
    let tokens = words(40);
    let list = TableModel::new_word_list(tokens.clone(), 32);
    assert_eq!(list.len(), 32);
    for w in &list {
        assert!(tokens.contains(w));
    }
    // A distinct corpus yields a distinct draw.
    for i in 0..list.len() {
        for j in i + 1..list.len() {
            assert_ne!(list[i], list[j]);
        }
    }
}

#[test]
fn short_corpus_yields_all_of_it() {
    let tokens = words(10);
    let list = TableModel::new_word_list(tokens.clone(), 32);
    assert_eq!(list.len(), 10);
}

#[test]
fn password_is_drawn_from_the_word_list() {
    let list = words(32);
    for _ in 0..20 {
        let pw = TableModel::new_password(&list);
        assert!(list.contains(&pw));
    }
}

#[test]
fn model_draws_candidates_and_password_together() {
    let tokens = words(48);
    let m = TableModel::new(32, tokens.clone());
    assert_eq!(m.hex_list.len(), 32);
    assert_eq!(m.word_list.len(), 32);
    assert!(m.word_list.contains(&m.password));
    for w in &m.word_list {
        assert!(tokens.contains(w));
    }
}
