use linalg::Vector;

#[test]
fn test_vector_ops() {
    let mut a = Vector::<usize>::new(2);
    let mut b = Vector::<usize>::new(2);
    *a.get_mut(0) = 1;
    *a.get_mut(1) = 1;
    *b.get_mut(0) = 1;
    *b.get_mut(1) = 1;

    let mut r = Vector::<usize>::new(2);

    *r.get_mut(0) = 2;
    *r.get_mut(1) = 2;
    assert_eq!(&(&a + &b), &r);

    *r.get_mut(0) = 0;
    *r.get_mut(1) = 0;
    assert_eq!(&(&a - &b), &r);

    *r.get_mut(0) = 1;
    *r.get_mut(1) = 1;
    assert_eq!(&(&a * &b), &r);

    *r.get_mut(0) = 1;
    *r.get_mut(1) = 1;
    assert_eq!(&(&a / &b), &r);

    *r.get_mut(0) = 0;
    *r.get_mut(1) = 0;
    assert_eq!(&(&a % &b), &r);
}
