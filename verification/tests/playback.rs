use rotation_sequencer::playback::Playback;
use rotation_sequencer::playback::TICKS_PER_SEGMENT;
use rotation_sequencer::sequencer::Sequencer;

fn playing(index: usize, elapsed: u32) -> Playback {
    Playback::Playing { index, elapsed }
}

fn ticked(len: usize, ticks: u32) -> Sequencer {
    let mut sequencer = Sequencer::new();
    sequencer.start(len);
    for _ in 0..ticks {
        sequencer.tick(len);
    }
    sequencer
}

#[test]
fn a_segment_lasts_sixty_ticks() {
    assert_eq!(TICKS_PER_SEGMENT, 60);
}

#[test]
fn new_sequencer_is_idle() {
    let sequencer = Sequencer::new();
    assert_eq!(sequencer.state(), Playback::Idle);
    assert!(!sequencer.is_active());
}

#[test]
fn default_sequencer_is_idle() {
    let sequencer = Sequencer::default();
    assert_eq!(sequencer.state(), Playback::Idle);
    assert!(!sequencer.is_active());
}

#[test]
fn start_enters_first_segment() {
    let mut sequencer = Sequencer::new();
    sequencer.start(3);
    assert!(sequencer.is_active());
    assert_eq!(sequencer.state(), playing(0, 0));
}

#[test]
fn start_on_empty_sequence_stays_idle() {
    let mut sequencer = Sequencer::new();
    sequencer.start(0);
    assert!(!sequencer.is_active());
    assert_eq!(sequencer.state(), Playback::Idle);
    sequencer.tick(0);
    assert!(!sequencer.is_active());
}

#[test]
fn start_on_empty_sequence_ends_running_playback() {
    let mut sequencer = ticked(4, 75);
    assert!(sequencer.is_active());
    sequencer.start(0);
    assert!(!sequencer.is_active());
}

#[test]
fn start_restarts_from_the_first_segment() {
    let mut sequencer = ticked(4, 75);
    assert_eq!(sequencer.state(), playing(1, 15));
    sequencer.start(4);
    assert_eq!(sequencer.state(), playing(0, 0));
}

#[test]
fn tick_counts_up_within_a_segment() {
    assert_eq!(ticked(3, 1).state(), playing(0, 1));
    assert_eq!(ticked(3, 30).state(), playing(0, 30));
    assert_eq!(ticked(3, 59).state(), playing(0, 59));
}

#[test]
fn tick_wraps_into_the_next_segment() {
    assert_eq!(ticked(3, 60).state(), playing(1, 0));
    assert_eq!(ticked(3, 61).state(), playing(1, 1));
    assert_eq!(ticked(3, 119).state(), playing(1, 59));
}

#[test]
fn playback_ends_when_the_cursor_reaches_the_last_step() {
    let sequencer = ticked(3, 120);
    assert_eq!(sequencer.state(), Playback::Idle);
    assert!(!sequencer.is_active());
    assert!(ticked(5, 239).is_active());
    assert!(!ticked(5, 240).is_active());
}

#[test]
fn single_step_list_plays_one_segment() {
    assert_eq!(ticked(1, 0).state(), playing(0, 0));
    assert_eq!(ticked(1, 59).state(), playing(0, 59));
    assert_eq!(ticked(1, 60).state(), Playback::Idle);
}

#[test]
fn two_step_list_plays_one_segment() {
    assert_eq!(ticked(2, 59).state(), playing(0, 59));
    assert_eq!(ticked(2, 60).state(), Playback::Idle);
}

#[test]
fn tick_leaves_an_idle_sequencer_idle() {
    let mut sequencer = Sequencer::new();
    for _ in 0..200 {
        sequencer.tick(3);
        assert_eq!(sequencer.state(), Playback::Idle);
    }
    let mut finished = ticked(3, 120);
    for _ in 0..200 {
        finished.tick(3);
        assert_eq!(finished.state(), Playback::Idle);
    }
}

#[test]
fn stop_ends_playback() {
    let mut sequencer = ticked(4, 75);
    assert!(sequencer.is_active());
    sequencer.stop();
    assert_eq!(sequencer.state(), Playback::Idle);
    sequencer.tick(4);
    assert_eq!(sequencer.state(), Playback::Idle);
}

#[test]
fn elapsed_stays_below_one_segment() {
    let mut sequencer = Sequencer::new();
    sequencer.start(6);
    for _ in 0..400 {
        if let Playback::Playing { index, elapsed } = sequencer.state() {
            assert!(elapsed < TICKS_PER_SEGMENT);
            assert!(index < 6);
        }
        sequencer.tick(6);
    }
    assert!(!sequencer.is_active());
}

#[test]
fn ticks_from_start_follow_the_closed_form() {
    for len in 0..7usize {
        let segments: u32 = if len == 0 {
            0
        } else if len <= 2 {
            1
        } else {
            len as u32 - 1
        };
        let mut sequencer = Sequencer::new();
        sequencer.start(len);
        for ticks in 0..500u32 {
            let expected = if ticks < TICKS_PER_SEGMENT * segments {
                playing((ticks / TICKS_PER_SEGMENT) as usize, ticks % TICKS_PER_SEGMENT)
            } else {
                Playback::Idle
            };
            assert_eq!(sequencer.state(), expected, "len {} ticks {}", len, ticks);
            sequencer.tick(len);
        }
    }
}

#[test]
fn advance_matches_repeated_ticks() {
    for len in 0..6usize {
        for before in [0u32, 1, 59, 60, 61, 130] {
            for ticks in [0u32, 1, 2, 59, 60, 61, 119, 120, 121, 179, 180, 181, 1000] {
                let mut stepped = ticked(len, before);
                let mut jumped = stepped;
                for _ in 0..ticks {
                    stepped.tick(len);
                }
                jumped.advance(len, ticks);
                assert_eq!(
                    jumped.state(),
                    stepped.state(),
                    "len {} before {} ticks {}",
                    len,
                    before,
                    ticks
                );
            }
        }
    }
}

#[test]
fn advance_exact_values() {
    let mut sequencer = Sequencer::new();
    sequencer.start(4);
    sequencer.advance(4, 45);
    assert_eq!(sequencer.state(), playing(0, 45));
    sequencer.advance(4, 45);
    assert_eq!(sequencer.state(), playing(1, 30));
    sequencer.advance(4, 60);
    assert_eq!(sequencer.state(), playing(2, 30));
    sequencer.advance(4, 29);
    assert_eq!(sequencer.state(), playing(2, 59));
    sequencer.advance(4, 1);
    assert_eq!(sequencer.state(), Playback::Idle);
    sequencer.advance(4, 77);
    assert_eq!(sequencer.state(), Playback::Idle);
}

#[test]
fn advance_by_the_largest_count_ends_playback() {
    let mut sequencer = ticked(3, 59);
    sequencer.advance(3, u32::MAX);
    assert_eq!(sequencer.state(), Playback::Idle);
    let mut long = Sequencer::new();
    long.start(usize::MAX);
    long.advance(usize::MAX, u32::MAX);
    assert_eq!(
        long.state(),
        playing((u32::MAX / 60) as usize, u32::MAX % 60)
    );
}

#[test]
fn fits_tells_whether_the_cursor_names_a_step() {
    let idle = Sequencer::new();
    assert!(idle.fits(0));
    assert!(idle.fits(5));
    let sequencer = ticked(5, 130);
    assert_eq!(sequencer.state(), playing(2, 10));
    assert!(sequencer.fits(5));
    assert!(sequencer.fits(3));
    assert!(!sequencer.fits(2));
    assert!(!sequencer.fits(0));
}

#[test]
fn tick_on_a_shrunken_list_ends_playback_at_the_segment_end() {
    let mut sequencer = ticked(5, 130);
    assert!(!sequencer.fits(1));
    sequencer.tick(1);
    assert_eq!(sequencer.state(), playing(2, 11));
    for _ in 0..48 {
        sequencer.tick(1);
    }
    assert_eq!(sequencer.state(), playing(2, 59));
    sequencer.tick(1);
    assert_eq!(sequencer.state(), Playback::Idle);
}
