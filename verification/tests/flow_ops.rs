use tubular::operations::flow_control::FlowControlOperations;
use tubular::types::direction::Direction;

#[test]
fn straight_pipes_keep_the_direction() {
    let f = FlowControlOperations::process_pipe;
    assert_eq!(f('|', Direction::Up), Direction::Up);
    assert_eq!(f('|', Direction::Down), Direction::Down);
    assert_eq!(f('-', Direction::Left), Direction::Left);
    assert_eq!(f('/', Direction::Right), Direction::Up);
    assert_eq!(f('/', Direction::Left), Direction::Down);
    assert_eq!(f('\\', Direction::Right), Direction::Down);
    assert_eq!(f('\\', Direction::Left), Direction::Up);
}
