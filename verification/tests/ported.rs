use colored::{Color as TermColor, Colorize};
use sysinfo_cli::common::{BlockSize, PrettySize};
use sysinfo_cli::style::{Color, Styled};
use sysinfo_cli::table::{Column, Row, Table};

#[test]
fn common_test() {
    let block_size: u64 = 4096;
    let free_blocks: u64 = 5429129;
    let free = free_blocks * block_size;
    println!("{}", free.pretty_size());

    let other_a = 1 << 10;
    println!("2^10={}", other_a);
}

#[test]
fn test_block_size_parse() {
    let block_size: BlockSize = "B".parse().unwrap();
    println!("{:?}", block_size);

    let result: Result<BlockSize, _> = "".parse();
    match result {
        Ok(val) => println!("{:?}", val),
        Err(err) => println!("{}", err.message()),
    }
}

#[test]
fn test_ptr_slice() {
    let slice = [111, 222, 333, 444, 555];
    let value = slice[0];
    println!("第一个元素是: {value}");
}

#[test]
fn test_ptr_str() {
    let str = "abcdef\0";
    let bytes = str.as_bytes();

    let value = bytes[0];
    let char_value: char = value as char;
    println!("第1个元素是: {value} = {char_value}");

    let value = bytes[1];
    let char_value: char = value as char;
    println!("下1个元素是: {value} = {char_value}");

    let value = bytes[0];
    let char_value: char = value as char;
    println!("上1个元素是: {value} = {char_value}");

    let value = bytes[6];
    let char_value: char = value as char;
    println!("第x个元素是: {value} = {char_value}");
}

#[test]
fn test_ptr_ok() {
    let x = vec![1, 2, 4];
    for i in 0..x.len() {
        assert_eq!(x[i], 1 << i);
        println!("i={i} {} {}", x[i], 1 << i);
    }
}

#[test]
fn test_ptr_err() {
    let x = vec![1, 2, 4];
    for i in 0..3 {
        println!("i={i} {} {}", x[i], 1 << i);
    }
}

#[test]
fn test_ptr_ok2() {
    let s = "abc".to_string();
    let bytes = s.as_bytes();
    for i in 0..s.len() {
        let v = bytes[i];
        let c = v as char;
        println!("i={i} {} {}", v, c);
    }
}

#[test]
fn test_ptr_err2() {
    let s = "abc".to_string();
    let bytes = s.as_bytes();
    for i in 0..s.len() {
        let v = bytes[i];
        let c = v as char;
        println!("i={i} {} {}", v, c);
    }
}

#[test]
fn test_ptr() {
    let s = "abc";
    let ss = s.to_string();
    let r = ss.as_str();
    println!(" ptr={:p}", r);

    let s1 = "abc";
    println!("ptr1={:p}", s1);

    let bytes = ss.as_bytes();
    for i in 0..s.len() {
        let v = bytes[i];
        let c = v as char;
        println!("i={i} {} {}", v, c);
    }
}

#[test]
fn test_combine_string() {
    let s = "111";
    let s1 = Styled::plain(s.to_string());
    let s2 = Styled::plain(s.to_string());

    let mut sm = "222";
    let s3 = Styled::plain(sm.to_string());

    sm = "333";
    let s4 = Styled::plain(sm.to_string());
    let s5 = Styled::plain(sm.to_string());

    println!("{:?} {:?} {:?} {:?} {:?}", s1, s2, s3, s4, s5);
}

#[test]
fn test5() {
    let mut a = 111;
    let b = &mut a;
    *b = 222;
    println!("{}", b);
    println!("{}", a);
}

#[test]
fn table_test() {
    let s1 = "abc";
    let s2 = s1;
    println!("{:p}", s1);
    println!("{:p}", s2);

    println!("({})", "111");
    println!("({})", "222".hidden());
    println!("({})", "333".normal());
    println!("({})", "444".color(TermColor::Blue));

    assert_eq!(format!("Hello {:<5}!", "x"), "Hello x    !");
    assert_eq!(format!("Hello {:-<5}!", "x"), "Hello x----!");
    assert_eq!(format!("Hello {:^5}!", "x"), "Hello   x  !");
    assert_eq!(format!("Hello {:>5}!", "x"), "Hello     x!");
}

fn plain_column(title: &str, key: &str) -> Column {
    let mut c = Column::default();
    c.title = title.to_string();
    c.key = key.to_string();
    c
}

fn row_of(pairs: &[(&str, &str)]) -> Row {
    let mut r = Row::new();
    for (k, v) in pairs {
        r.set(k.to_string(), v.to_string());
    }
    r
}

#[test]
fn test_column() {
    let column = Column::default();
    println!("{}", column.format(Styled::plain("aaa".to_string()), None, true));

    let column_ref = &Column::default();
    println!("{}", column_ref.format(Styled::plain("bbb".to_string()), None, true));
}

#[test]
fn test_table() {
    let mut first = plain_column("AAA", "aaa");
    first.right_align = true;
    first.width = 10;
    first.color = Some(Color::Cyan);
    let columns = vec![first, plain_column("BBB", "bbb"), plain_column("CCC", "ccc")];
    let data = vec![
        row_of(&[("aaa", "1-1"), ("bbb", "1-2-222"), ("ccc", "1-3-333-333")]),
        row_of(&[("aaa", "-1")]),
        row_of(&[("bbb", "-2")]),
        row_of(&[("ccc", "-3")]),
        row_of(&[("aaa", "2-1"), ("bbb", "2-2"), ("ccc", "2-3")]),
        row_of(&[("aaa", "3-1"), ("bbb", "3-2"), ("ccc", "3-3")]),
    ];
    let mut table = Table {
        columns,
        columns_cache: Vec::new(),
        data,
        custom: Row::new(),
    };

    table.refresh_cache();
    println!("{}", table.render(true));
}
