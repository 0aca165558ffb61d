use ballistic_solver::printer::{print, Sample};

fn sample_one() -> Sample {
    Sample {
        distance: 100,
        angle: -432,
        elevation: -125,
        windage: 50,
        vertical: 432,
        horizontal: 98,
        velocity: 250012,
        energy: 155099,
        time: 125,
    }
}

fn sample_two() -> Sample {
    Sample {
        distance: 200,
        angle: 150,
        elevation: 300,
        windage: -50,
        vertical: 287,
        horizontal: 0,
        velocity: 230000,
        energy: 131550,
        time: 250,
    }
}

const PLAIN_HEADER: &str = "Distance(yd)      MOA Elevation(in) Windage(in)   Vertical Horizontal Velocity(ft/s) Energy(ftlb)  Time(s)";
const RULE: &str = "+--------------+----------+---------------+-------------+------------+------------+----------------+--------------+----------+";

#[test]
fn plain_table_exact() {
    let out = print(&vec![sample_one()], 100, false);
    let lines: Vec<&str> = out.lines().collect();
    assert_eq!(lines.len(), 2);
    assert_eq!(lines[0], PLAIN_HEADER);
    assert_eq!(
        lines[1],
        "         100    -4.32        1.25 U      0.50 *     4.32 U     0.98 *        2500.12      1550.99    0.125"
    );
    assert!(out.ends_with('\n'));
}

#[test]
fn pretty_table_exact() {
    let out = print(&vec![sample_one()], 100, true);
    let lines: Vec<&str> = out.lines().collect();
    assert_eq!(lines.len(), 5);
    assert_eq!(lines[0], RULE);
    assert_eq!(
        lines[1],
        "| Distance(yd) |      MOA | Elevation(in) | Windage(in) |   Vertical | Horizontal | Velocity(ft/s) | Energy(ftlb) |  Time(s) |"
    );
    assert_eq!(lines[2], RULE);
    assert_eq!(
        lines[3],
        "|          100 |    -4.32 |        1.25 U |      0.50 * |     4.32 U |     0.98 * |        2500.12 |      1550.99 |    0.125 |"
    );
    assert_eq!(lines[4], RULE);
}

#[test]
fn rendering_twice_is_byte_identical() {
    let table = vec![sample_one(), sample_two()];
    for pretty in [false, true] {
        let a = print(&table, 100, pretty);
        let b = print(&table, 100, pretty);
        assert_eq!(a, b);
    }
}

#[test]
fn pretty_stripped_of_borders_matches_plain() {
    let table = vec![sample_one(), sample_two()];
    let plain = print(&table, 100, false);
    let pretty = print(&table, 100, true);
    let stripped: Vec<String> = pretty
        .lines()
        .filter(|l| !l.starts_with('+'))
        .map(|l| {
            l.strip_prefix("| ")
                .unwrap()
                .strip_suffix(" |")
                .unwrap()
                .replace(" | ", " ")
        })
        .collect();
    let plain_lines: Vec<&str> = plain.lines().collect();
    assert_eq!(stripped.len(), plain_lines.len());
    for (s, p) in stripped.iter().zip(plain_lines.iter()) {
        assert_eq!(s, p);
    }
}

#[test]
fn row_count_matches_sample_count_and_order() {
    let table = vec![sample_one(), sample_two()];
    let plain = print(&table, 100, false);
    let plain_lines: Vec<&str> = plain.lines().collect();
    assert_eq!(plain_lines.len(), table.len() + 1);
    assert!(plain_lines[1].trim_start().starts_with("100"));
    assert!(plain_lines[2].trim_start().starts_with("200"));

    let pretty = print(&table, 100, true);
    let pretty_lines: Vec<&str> = pretty.lines().collect();
    assert_eq!(pretty_lines.len(), table.len() + 4);
    assert!(pretty_lines[3].starts_with("|          100 |"));
    assert!(pretty_lines[4].starts_with("|          200 |"));
}

#[test]
fn empty_sample_sequence_prints_header_only() {
    let plain = print(&Vec::new(), 100, false);
    assert_eq!(plain.lines().count(), 1);
    let pretty = print(&Vec::new(), 100, true);
    assert_eq!(pretty.lines().count(), 4);
}
