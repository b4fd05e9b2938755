use termwindow::ping_pong::{ping_pong_targets, ReadSource, WriteTarget};

#[test]
fn test_ping_pong_single_shader() {
    let (read, write) = ping_pong_targets(0, 1);
    assert_eq!(read, ReadSource::Intermediate);
    assert_eq!(write, WriteTarget::Surface);
}

#[test]
fn test_ping_pong_two_shaders() {
    let (r0, w0) = ping_pong_targets(0, 2);
    assert_eq!(r0, ReadSource::Intermediate);
    assert_eq!(w0, WriteTarget::PingPong);

    let (r1, w1) = ping_pong_targets(1, 2);
    assert_eq!(r1, ReadSource::PingPong);
    assert_eq!(w1, WriteTarget::Surface);
}

#[test]
fn test_ping_pong_three_shaders() {
    let (r0, w0) = ping_pong_targets(0, 3);
    assert_eq!(r0, ReadSource::Intermediate);
    assert_eq!(w0, WriteTarget::PingPong);

    let (r1, w1) = ping_pong_targets(1, 3);
    assert_eq!(r1, ReadSource::PingPong);
    assert_eq!(w1, WriteTarget::Intermediate);

    let (r2, w2) = ping_pong_targets(2, 3);
    assert_eq!(r2, ReadSource::Intermediate);
    assert_eq!(w2, WriteTarget::Surface);
}

#[test]
fn each_pass_reads_what_the_one_before_wrote() {
    for count in 1..20usize {
        assert_eq!(ping_pong_targets(0, count).0, ReadSource::Intermediate);
        for index in 0..count - 1 {
            let (read, write) = ping_pong_targets(index, count);
            let (next, _) = ping_pong_targets(index + 1, count);
            match write {
                WriteTarget::PingPong => {
                    assert_eq!(next, ReadSource::PingPong);
                    assert_eq!(read, ReadSource::Intermediate);
                }
                WriteTarget::Intermediate => {
                    assert_eq!(next, ReadSource::Intermediate);
                    assert_eq!(read, ReadSource::PingPong);
                }
                WriteTarget::Surface => panic!("only the last pass reaches the surface"),
            }
        }
        assert_eq!(ping_pong_targets(count - 1, count).1, WriteTarget::Surface);
    }
}

#[test]
fn passes_beyond_the_chain_go_by_parity() {
    assert_eq!(
        ping_pong_targets(5, 3),
        (ReadSource::PingPong, WriteTarget::Intermediate)
    );
    assert_eq!(
        ping_pong_targets(4, 3),
        (ReadSource::Intermediate, WriteTarget::PingPong)
    );
}
