use sao_vec::{RemoveError, SaoVec};

#[test]
fn at_mut_overwrites_one_row_in_place() {
    let mut sao = SaoVec::<(u64, u32)>::new();
    sao.push((1, 2));
    sao.push((3, 4));

    let (a, b) = sao.at_mut(1);
    *a = 30;
    *b = 40;

    assert_eq!(sao.len(), 2);
    assert_eq!(sao.at(0), (&1, &2));
    assert_eq!(sao.at(1), (&30, &40));
}

#[test]
fn as_refs_tuple_mut_updates_columns_in_bulk() {
    let mut sao = SaoVec::<(u64, u32)>::new();
    sao.push((1, 2));
    sao.push((3, 4));
    sao.push((5, 6));

    let (first, second) = sao.as_refs_tuple_mut();
    for x in first.iter_mut() {
        *x += 10;
    }
    second[0] = 20;

    assert_eq!(sao.len(), 3);
    assert_eq!(sao.at(0), (&11, &20));
    assert_eq!(sao.at(1), (&13, &4));
    assert_eq!(sao.at(2), (&15, &6));
}

#[test]
fn three_columns_push_and_read_back() {
    let mut sao = SaoVec::<(u64, u32, u8)>::new();
    sao.push((1, 2, 3));
    sao.push((4, 5, 6));
    sao.push((7, 8, 9));

    assert_eq!(sao.len(), 3);
    assert_eq!(sao.capacity(), 4);
    assert_eq!(sao.at(0), (&1, &2, &3));
    assert_eq!(sao.at(1), (&4, &5, &6));
    assert_eq!(sao.at(2), (&7, &8, &9));
}

#[test]
fn three_columns_remove_keeps_order() {
    let mut sao = SaoVec::<(u64, u32, u8)>::with_capacity(3);
    sao.push((1, 2, 3));
    sao.push((4, 5, 6));
    sao.push((7, 8, 9));

    sao.remove(1).unwrap();

    assert_eq!(sao.len(), 2);
    assert_eq!(sao.at(0), (&1, &2, &3));
    assert_eq!(sao.at(1), (&7, &8, &9));
    assert_eq!(
        sao.remove(2),
        Err(RemoveError::OutOfBounds { index: 2, len: 2 })
    );
}

#[test]
fn three_columns_swap_and_swap_remove() {
    let mut sao = SaoVec::<(u64, u32, u8)>::new();
    sao.push((1, 2, 3));
    sao.push((4, 5, 6));
    sao.push((7, 8, 9));
    sao.push((10, 11, 12));

    sao.swap(0, 3);
    assert_eq!(sao.at(0), (&10, &11, &12));
    assert_eq!(sao.at(3), (&1, &2, &3));

    sao.swap_remove(0);
    assert_eq!(sao.len(), 3);
    assert_eq!(sao.at(0), (&1, &2, &3));
    assert_eq!(sao.at(1), (&4, &5, &6));
    assert_eq!(sao.at(2), (&7, &8, &9));
}

#[test]
fn three_columns_views_expose_live_elements() {
    let mut sao = SaoVec::<(u64, u32, u8)>::with_capacity(5);
    sao.push((1, 2, 3));
    sao.push((4, 5, 6));

    let (first, second, third) = sao.as_refs_tuple();
    assert_eq!(first, &[1u64, 4]);
    assert_eq!(second, &[2u32, 5]);
    assert_eq!(third, &[3u8, 6]);

    sao.set_at(0, (7, 7, 7));
    assert_eq!(sao.at(0), (&7, &7, &7));
    assert_eq!(sao.at(1), (&4, &5, &6));
}
