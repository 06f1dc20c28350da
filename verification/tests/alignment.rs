use algorithms_in_a_nutshell::needleman_wunsch::Direction;
use algorithms_in_a_nutshell::needleman_wunsch::EqSimilarity;
use algorithms_in_a_nutshell::needleman_wunsch::NeedlemanWunsch;
use algorithms_in_a_nutshell::needleman_wunsch::ResultEntry;
use algorithms_in_a_nutshell::needleman_wunsch::fill_align_matrix;
use algorithms_in_a_nutshell::needleman_wunsch::Similarity;
use algorithms_in_a_nutshell::needleman_wunsch::init_align_matrix;

#[test]
fn test_align() {
    let similarity = EqSimilarity { matched: 1, mismatched: -1 };
    let mut vec1: Vec<char> = "what".chars().collect();
    let mut vec2: Vec<char> = "white".chars().collect();
    let res = vec1.align(&mut vec2, &similarity, -1);
    let res_should_be = (
        vec![Some('w'), Some('h'), Some('a'), Some('t'), None],
        vec![Some('w'), Some('h'), Some('i'), Some('t'), Some('e')],
    );
    assert_eq!(res, res_should_be);
    let mut vec1: Vec<char> = "ab".chars().collect();
    let mut vec2: Vec<char> = "aeb".chars().collect();
    let res = vec1.align(&mut vec2, &similarity, -1);
    let res_should_be = (
        vec![Some('a'), None, Some('b')],
        vec![Some('a'), Some('e'), Some('b')],
    );
    assert_eq!(res, res_should_be);
}

#[test]
fn test_align_mat() {
    let m = init_align_matrix(2, 3);
    let m_should_be = vec![
        vec![
            ResultEntry::new(0, Direction::Undefined),
            ResultEntry::new(-1, Direction::Left),
            ResultEntry::new(-2, Direction::Left),
            ResultEntry::new(-3, Direction::Left),
        ],
        vec![
            ResultEntry::new(-1, Direction::Up),
            ResultEntry::new(0, Direction::Undefined),
            ResultEntry::new(0, Direction::Undefined),
            ResultEntry::new(0, Direction::Undefined),
        ],
        vec![
            ResultEntry::new(-2, Direction::Up),
            ResultEntry::new(0, Direction::Undefined),
            ResultEntry::new(0, Direction::Undefined),
            ResultEntry::new(0, Direction::Undefined),
        ],
    ];
    assert_eq!(m, m_should_be);
}

#[test]
fn test_fill_mat() {
    let similarity = EqSimilarity { matched: 1, mismatched: -1 };
    let vec1: Vec<char> = "ab".chars().collect();
    let vec2: Vec<char> = "aeb".chars().collect();
    let mut mat = init_align_matrix(vec1.len(), vec2.len());
    fill_align_matrix(&mut mat, &vec1, &vec2, &similarity, -1);
    let ud = Direction::Undefined;
    let lt = Direction::Left;
    let up = Direction::Up;
    let mt = Direction::Match;
    let res_should_be = vec![
        vec![
            ResultEntry::new(0, ud),
            ResultEntry::new(-1, lt),
            ResultEntry::new(-2, lt),
            ResultEntry::new(-3, lt),
        ],
        vec![
            ResultEntry::new(-1, up),
            ResultEntry::new(1, mt),
            ResultEntry::new(0, lt),
            ResultEntry::new(-1, lt),
        ],
        vec![
            ResultEntry::new(-2, up),
            ResultEntry::new(0, up),
            ResultEntry::new(0, mt),
            ResultEntry::new(1, mt),
        ],
    ];
    assert_eq!(mat, res_should_be);
}

#[test]
fn test_similarity_scores() {
    let similarity = EqSimilarity { matched: 1, mismatched: -1 };
    assert_eq!(1, similarity.sim(&'a', &'a'));
    assert_eq!(-1, similarity.sim(&'a', &'b'));
}
