use flip_rotate::filter::ImageFilterOp;
use flip_rotate::flip_rotate_op::ImageFlipRotateOp;
use flip_rotate::orientation::Orientation;

fn stack_ops(stack: &ImageFlipRotateOp) -> Vec<Orientation> {
    let mut ops = Vec::new();
    let mut i = 0;
    while i < stack.op_count() {
        ops.push(stack.op_at(i));
        i += 1;
    }
    ops
}

#[test]
fn concrete_scenario_two_lefts_then_flip() {
    let mut stack = ImageFlipRotateOp::new(Orientation::Rot0);
    stack.rotate_left();
    stack.rotate_left();
    assert_eq!(stack_ops(&stack), vec![Orientation::Rot0, Orientation::Rot180]);
    assert_eq!(stack.dimensions(100, 50), (100, 50));
    stack.flip_horizontal();
    assert_eq!(
        stack_ops(&stack),
        vec![Orientation::Rot0, Orientation::Rot180, Orientation::Rot0Flip]
    );
    assert_eq!(stack.op_count(), 3);
}

#[test]
fn seed_never_changes() {
    let mut stack = ImageFlipRotateOp::new(Orientation::Rot90Flip);
    stack.rotate_left();
    stack.rotate_right();
    stack.flip_horizontal();
    stack.flip_vertical();
    stack.rotate_left();
    assert_eq!(stack.op_at(0), Orientation::Rot90Flip);
}

#[test]
fn combine_closure_two_rotations() {
    let mut stack = ImageFlipRotateOp::new(Orientation::Rot0);
    stack.flip_horizontal();
    assert_eq!(stack.op_count(), 2);
    stack.rotate_left();
    let len_after_first = stack.op_count();
    assert_eq!(len_after_first, 3);
    stack.rotate_left();
    assert_eq!(stack.op_count(), len_after_first);
    assert_eq!(stack.last_op(), Orientation::Rot180);
}

#[test]
fn combine_closure_two_flips_cancel() {
    let mut stack = ImageFlipRotateOp::new(Orientation::Rot0);
    stack.rotate_left();
    stack.flip_horizontal();
    assert_eq!(stack.op_count(), 3);
    stack.flip_horizontal();
    assert_eq!(stack.op_count(), 3);
    assert_eq!(stack.last_op(), Orientation::Rot0);
}

#[test]
fn flip_then_rotation_never_combines() {
    let mut stack = ImageFlipRotateOp::new(Orientation::Rot0);
    stack.flip_horizontal();
    let before = stack.op_count();
    stack.rotate_left();
    stack.flip_vertical();
    assert_eq!(stack.op_count(), before + 2);
    assert_eq!(stack.last_op(), Orientation::Rot180Flip);
}

#[test]
fn left_then_right_cancels_to_identity() {
    let mut stack = ImageFlipRotateOp::new(Orientation::Rot0);
    stack.rotate_left();
    assert_eq!(stack.last_op(), Orientation::Rot90);
    stack.rotate_right();
    assert_eq!(stack.op_count(), 2);
    assert_eq!(stack.last_op(), Orientation::Rot0);
}

#[test]
fn seed_combines_with_nothing() {
    let stack = ImageFlipRotateOp::new(Orientation::Rot90);
    assert!(!stack.can_combine_with_last_op(Orientation::Rot90));
    assert!(!stack.can_combine_with_last_op(Orientation::Rot0Flip));
    let mut stack = stack;
    stack.rotate_left();
    assert!(stack.can_combine_with_last_op(Orientation::Rot270));
    assert!(!stack.can_combine_with_last_op(Orientation::Rot90Flip));
}

#[test]
fn flip_classes_combine_to_rotation() {
    let mut stack = ImageFlipRotateOp::new(Orientation::Rot0);
    stack.rotate_left();
    stack.flip_horizontal();
    // Pushing Rot90Flip onto a Rot0Flip top: both flips, angles 0 - 90.
    stack.add_operation(Orientation::Rot90Flip);
    assert_eq!(stack.last_op(), Orientation::Rot270);
}

#[test]
fn dimensions_swap_per_orientation() {
    let keeps = [
        Orientation::Rot0,
        Orientation::Rot180,
        Orientation::Rot0Flip,
        Orientation::Rot180Flip,
    ];
    let swaps = [
        Orientation::Rot90,
        Orientation::Rot270,
        Orientation::Rot90Flip,
        Orientation::Rot270Flip,
    ];
    for o in keeps {
        let stack = ImageFlipRotateOp::new(o);
        assert_eq!(stack.dimensions(100, 50), (100, 50));
    }
    for o in swaps {
        let stack = ImageFlipRotateOp::new(o);
        assert_eq!(stack.dimensions(100, 50), (50, 100));
    }
}

#[test]
fn double_flip_keeps_dimensions() {
    let mut stack = ImageFlipRotateOp::new(Orientation::Rot0);
    stack.rotate_left();
    let before = stack.dimensions(640, 480);
    stack.flip_horizontal();
    stack.flip_horizontal();
    assert_eq!(stack.dimensions(640, 480), before);
}
