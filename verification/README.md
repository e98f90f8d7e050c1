# freemkv

A command-line and desktop front end for ripping optical discs: listing what is
on a disc, turning it into files, capturing drive profiles and keeping the key
database up to date.

The logic is a library written in Verus. Every function of it states what it
returns in `requires` / `ensures` contracts, and Verus proves them. What the
program promises as a whole (a title is found again after a rescan, damage is
never passed over in silence, nothing is posted without consent, no name that a
disc chooses reaches a screen unfiltered, ...) stands beside the functions as public
proof functions whose names begin with `law_`.

    src/        the library
    src/engine/ rips: names, identities, requests, summaries, the rip itself
    src/linux/  the window: menus, tree, log, settings
    src/cmd/    plain listings and disc verification
    tests/      tests of the library
    app/        the program: terminal, files, drives, network

Discs, drives and key sources are the business of other crates. The library sees
them as plain values (`src/disc.rs`), and `app/` converts.
