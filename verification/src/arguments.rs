pub mod permutation_argument;
