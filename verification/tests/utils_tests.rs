use blockchain_sim::utils::{
    count_char, find_all_chars, find_first_char, find_last_char, largest_char, largest_i32,
    largest_str, largest_val, shoes_my_size, steer, Direction, Option1, Shoe,
};

#[test]
fn filter_by_size() {
    let shoes = vec![
        Shoe {
            size: 10,
            style: String::from("Boot"),
        },
        Shoe {
            size: 10,
            style: String::from("Casual"),
        },
        Shoe {
            size: 11,
            style: String::from("Formal"),
        },
    ];

    let in_my_shoes = shoes_my_size(shoes, 10);

    assert_eq!(
        in_my_shoes,
        vec![
            Shoe {
                size: 10,
                style: String::from("Boot")
            },
            Shoe {
                size: 10,
                style: String::from("Casual")
            },
        ]
    );
}

#[test]
fn largest_of_each_kind() {
    let v = vec![100, 22, 3, 45, 2];
    assert_eq!(*largest_i32(&v), 100);

    let c = vec!['a', 'd', 'i', 'y'];
    assert_eq!(*largest_char(&c), 'y');

    let g = vec!['a', 'b', 'c'];
    assert_eq!(*largest_val(&g), 'c');

    assert_eq!(largest_str("shivraj", "sidesh"), "shivraj");
    assert_eq!(largest_str("ab", "xyz"), "xyz");
}

#[test]
fn char_searches_ignore_ascii_case() {
    let s = "Shivraj Is hIding";
    assert_eq!(find_all_chars(s, 'i'), vec![2, 8, 12, 14]);
    assert_eq!(find_first_char(s, 'I'), Option1::Found(2));
    assert_eq!(find_last_char(s, 'i'), Option1::Found(14));
    assert_eq!(count_char(s, 'i'), 4);
    assert_eq!(find_first_char(s, 'z'), Option1::<usize>::Missing);
    assert_eq!(find_last_char(s, 'z'), Option1::<usize>::Missing);
    assert_eq!(count_char("", 'a'), 0);
}

#[test]
fn steer_messages() {
    assert_eq!(steer(Direction::North), "North Direction");
    assert_eq!(steer(Direction::South), "South Direction");
    assert_eq!(steer(Direction::East), "Horizontal direction");
    assert_eq!(steer(Direction::West), "Horizontal direction");
}
