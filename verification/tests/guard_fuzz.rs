use dump2parquet::guard::parser_will_return;
use dump2parquet::line_parser::parse_line;
use sqlparser::keywords::ALL_KEYWORDS;

struct Random(u64);

impl Random {
    fn next(&mut self, bound: usize) -> usize {
        self.0 = self.0.wrapping_mul(6364136223846793005).wrapping_add(1442695040888963407);
        ((self.0 >> 33) as usize) % bound
    }
}

const SIGNS: [&str; 40] = [
    "(", ")", "(", ")", ",", ",", ".", ";", "=", "<", ">", "<=", ">=", "<>", "!=", "+", "-", "*", "/", "%",
    "||", "::", ":", "[", "]", "{", "}", "~", "!", "@", "#", "&", "|", "^", "?", "->", "->>", "<<", ">>", "=>",
];

const OPERANDS: [&str; 24] = [
    "1", "0", "42", "1.5", ".5", "1e3", "4294967295", "4294967296", "99999999999999999999", "18446744073709551616",
    "'a'", "'it''s'", "''", "\"q\"", "`t`", "`a b`", "t", "a", "b", "x1", "N'n'", "X'1F'", "@v", "$1",
];

const STARTS: [&str; 28] = [
    "", "", "SELECT", "SELECT * FROM t", "SELECT DISTINCT", "SELECT ALL", "INSERT INTO t", "INSERT INTO t VALUES (",
    "CREATE TABLE t (", "CREATE TABLE t (a INT", "CREATE TABLE t (a INT)", "CREATE", "ALTER TABLE t", "DROP", "GRANT",
    "GRANT SELECT ON t TO u", "REVOKE SELECT ON t FROM u", "UPDATE t SET", "DELETE FROM t", "SET", "SHOW", "EXPLAIN",
    "WITH a AS (", "COPY t", "MERGE INTO t", "CALL", "LOCK TABLES", "CREATE INDEX i ON t (",
];

fn statement(random: &mut Random, keywords: &[&str]) -> String {
    let mut text = String::from(STARTS[random.next(STARTS.len())]);
    let length = random.next(24);
    for _ in 0..length {
        text.push(' ');
        match random.next(10) {
            0..=3 => text.push_str(keywords[random.next(keywords.len())]),
            4..=6 => text.push_str(SIGNS[random.next(SIGNS.len())]),
            _ => text.push_str(OPERANDS[random.next(OPERANDS.len())]),
        }
    }
    text
}

fn run(seed: u64, keywords: &[&str], count: usize) -> usize {
    let mut random = Random(seed);
    let mut handed = 0;
    for _ in 0..count {
        let text = statement(&mut random, keywords);
        if parser_will_return(&text) {
            handed += 1;
            let _ = parse_line(&text);
        }
    }
    handed
}

const FREQUENT: [&str; 60] = [
    "SELECT", "FROM", "WHERE", "AND", "OR", "NOT", "NULL", "TABLE", "VALUES", "INTO", "DEFAULT", "PRIMARY", "KEY", "UNIQUE",
    "AUTO_INCREMENT", "TOP", "GRANTED", "BY", "WITH", "AS", "ON", "JOIN", "UNION", "ALL", "DISTINCT", "CASE", "WHEN", "THEN",
    "ELSE", "END", "IN", "IS", "BETWEEN", "LIKE", "EXISTS", "INTERVAL", "CAST", "ARRAY", "STRUCT", "INT", "VARCHAR", "ENGINE",
    "CHARSET", "COLLATE", "COMMENT", "ORDER", "GROUP", "LIMIT", "OFFSET", "PERCENT", "TIES", "OPTION", "GRANT", "TO", "CASCADE",
    "RESTRICT", "EXCEPT", "INTERSECT", "OVER", "PARTITION",
];

#[test]
fn no_handed_statement_of_any_keywords_fails_to_return() {
    assert!(run(1, ALL_KEYWORDS, 60_000) > 1_000);
}

#[test]
fn no_handed_statement_of_frequent_keywords_fails_to_return() {
    assert!(run(2, &FREQUENT, 60_000) > 1_000);
}

#[test]
fn no_handed_statement_of_frequent_keywords_fails_to_return_again() {
    assert!(run(3, &FREQUENT, 60_000) > 1_000);
}

#[test]
fn no_handed_statement_of_any_keywords_fails_to_return_again() {
    assert!(run(4, ALL_KEYWORDS, 60_000) > 1_000);
}
