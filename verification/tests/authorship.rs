use shape_codec::Config;
use shape_codec::ConsensusEngineId;
use shape_codec::FindAuthor;
use shape_codec::Pallet;

const TEST_ID: ConsensusEngineId = [1, 2, 3, 4];

struct AuthorGiven;

impl FindAuthor<u64> for AuthorGiven {
    fn find_author(digests: &Vec<(ConsensusEngineId, Vec<u8>)>) -> Option<u64> {
        for (id, data) in digests {
            if *id == TEST_ID {
                let bytes: [u8; 8] = data.as_slice().try_into().ok()?;
                return Some(u64::from_le_bytes(bytes));
            }
        }
        None
    }
}

struct Test;

impl Config for Test {
    type AccountId = u64;
    type FindAuthor = AuthorGiven;
    type EventHandler = ();
}

#[test]
fn sets_author_lazily() {
    let author: u64 = 42;
    let digests = vec![(TEST_ID, author.to_le_bytes().to_vec())];
    let mut pallet: Pallet<Test> = Pallet::new();
    assert_eq!(pallet.author(&digests), Some(author));
    // The author is memorized: it is still reported when the digests are
    // gone, until the block is finalized.
    assert_eq!(pallet.author(&Vec::new()), Some(author));
    pallet.on_finalize();
    assert_eq!(pallet.author(&Vec::new()), None);
}
