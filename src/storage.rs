use vstd::prelude::*;

verus! {

/// Naming of wallet files in a wallet directory: `<dir>/<name>.json`.
pub struct WalletStorage;

/// The file extension of a stored wallet, with its dot.
pub open spec fn wallet_extension() -> Seq<char> {
    ".json"@
}

/// The wallet name a file name stands for: the name without `.json`, if it ends so and
/// something precedes it.
pub open spec fn wallet_name_of(file_name: Seq<char>) -> Option<Seq<char>> {
    if file_name.len() > 5 && file_name.subrange(file_name.len() - 5, file_name.len() as int) == wallet_extension() {
        Some(file_name.subrange(0, file_name.len() - 5))
    } else {
        None
    }
}

impl WalletStorage {
    /// The path of the wallet file named `name` in `wallet_dir`.
    pub fn get_wallet_path(wallet_dir: &str, name: &str) -> (r: String)
        ensures
            r@ == wallet_dir@ + "/"@ + name@ + wallet_extension(),
    {
        let mut r = String::from_str(wallet_dir);
        r.append("/");
        r.append(name);
        r.append(".json");
        r
    }

    /// The wallet name of a file in the wallet directory, if it is a wallet file.
    pub fn wallet_name_of_file(file_name: &str) -> (r: Option<String>)
        ensures
            r is Some <==> wallet_name_of(file_name@) is Some,
            r matches Some(n) ==> wallet_name_of(file_name@) == Some(n@),
    {
        proof {
            reveal_strlit(".json");
        }
        let n = file_name.unicode_len();
        if n <= 5 {
            return None;
        }
        let tail = file_name.substring_char(n - 5, n);
        let ext = ".json";
        let mut k: usize = 0;
        while k < 5
            invariant
                k <= 5,
                n == file_name@.len(),
                n > 5,
                tail@.len() == 5,
                tail@ == file_name@.subrange(n - 5, n as int),
                ext@ == wallet_extension(),
                ext@.len() == 5,
                forall|j: int| 0 <= j < k ==> tail@[j] == ext@[j],
            decreases 5 - k,
        {
            if tail.get_char(k) != ext.get_char(k) {
                assert(tail@ != ext@);
                return None;
            }
            k = k + 1;
        }
        assert(tail@ =~= ext@);
        Some(String::from_str(file_name.substring_char(0, n - 5)))
    }
}

} // verus!
