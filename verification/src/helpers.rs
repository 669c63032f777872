//! The steps of a lookup: from the arguments of a command to the requests
//! to send, and from the outcomes of the requests to the data to show.

use crate::address::{
    address_from_text, inner_fields, lemma_first_empty_unique, IpAddress, IpAddressModel,
};
use crate::config::ApiKeyStore;
use crate::error::{
    FetchError, GeolocationBuildError, InvalidAddressError, MissingTokenError,
    MutualExclusivityError, TokenWording,
};
use crate::gather::{
    first_failure, gather, gathered, lemma_first_failure, lemma_first_failure_unique,
    lemma_gathered_all, lemma_gathered_any_failure, lemma_gathered_first_failure, values_of,
};
use crate::geolocation::{request_urls, FetchPlan, Geolocation};
use crate::output::{decoded_object, decodes_to, is_json_object, JsonObject};
use crate::parser::{ExclusiveConfigArgument, ExclusiveGeolocationArgument};
use crate::provider::Provider;
use crate::alphabet::lemma_address_chars;
use crate::text::{chars_of, free_of, join, lemma_split_join, piece_views, split, split_chars};
use crate::traits::{GeolocationInput, GeolocationProvider, MutualExclusivity};
use vstd::prelude::*;

verus! {

/// The mathematical values of a list of addresses.
pub open spec fn address_views(addresses: Seq<IpAddress>) -> Seq<IpAddressModel> {
    addresses.map_values(|address: IpAddress| address@)
}

/// What the lines of an address file read as: for every line that is not
/// empty, in the order of the lines, the address that it holds, or else
/// the number of the line, counted from one.
pub open spec fn line_readings(lines: Seq<Seq<char>>) -> Seq<Result<IpAddressModel, int>>
    decreases lines.len(),
{
    if lines.len() == 0 {
        Seq::empty()
    } else {
        let before = line_readings(lines.drop_last());
        if lines.last().len() == 0 {
            before
        } else {
            before.push(
                match address_from_text(lines.last()) {
                    Some(address) => Ok(address),
                    None => Err(lines.len() as int),
                },
            )
        }
    }
}

/// The lines of the content of a file: what stands between its newlines.
pub open spec fn lines_of(content: Seq<char>) -> Seq<Seq<char>> {
    split(content, '\n')
}

/// The addresses that the content of an address file lists, in the order
/// of its lines, or the number of the first line that is not empty and holds
/// no address.
pub open spec fn addresses_in_file(content: Seq<char>) -> Result<Seq<IpAddressModel>, int> {
    gathered(line_readings(lines_of(content)))
}

/// What a list of readings stands for.
pub open spec fn reading_views(readings: Seq<Result<IpAddress, InvalidAddressError>>) -> Seq<
    Result<IpAddressModel, int>,
> {
    readings.map_values(
        |reading: Result<IpAddress, InvalidAddressError>|
            match reading {
                Ok(address) => Ok(address@),
                Err(invalid) => Err(invalid.line as int),
            },
    )
}

/// An empty text holds no address.
pub proof fn lemma_empty_is_no_address()
    ensures
        address_from_text(Seq::<char>::empty()) is None,
{
    let empty = Seq::<char>::empty();
    assert(split(empty, '.') == seq![empty]);
    assert(split(empty, ':') == seq![empty]);
    let body = inner_fields(seq![empty]);
    assert(body == seq![empty]);
    lemma_first_empty_unique(body, 0);
}

/// Lines that all hold an address read as those addresses, as many as
/// there are lines and in the order of the lines.
pub proof fn lemma_readings_of_valid_lines(lines: Seq<Seq<char>>)
    requires
        forall|i: int| 0 <= i < lines.len() ==> address_from_text(#[trigger] lines[i]) is Some,
    ensures
        line_readings(lines) == Seq::new(
            lines.len(),
            |i: int| Ok::<IpAddressModel, int>(address_from_text(lines[i]).unwrap()),
        ),
    decreases lines.len(),
{
    lemma_empty_is_no_address();
    if lines.len() > 0 {
        let front = lines.drop_last();
        assert forall|i: int| 0 <= i < front.len() implies address_from_text(
            #[trigger] front[i],
        ) is Some by {
            assert(front[i] == lines[i]);
        }
        lemma_readings_of_valid_lines(front);
        assert(address_from_text(lines[lines.len() - 1]) is Some);
        assert(lines.last().len() != 0) by {
            if lines.last().len() == 0 {
                assert(lines.last() == Seq::<char>::empty());
            }
        }
        assert(line_readings(lines) == Seq::new(
            lines.len(),
            |i: int| Ok::<IpAddressModel, int>(address_from_text(lines[i]).unwrap()),
        ));
    } else {
        assert(line_readings(lines) == Seq::new(
            lines.len(),
            |i: int| Ok::<IpAddressModel, int>(address_from_text(lines[i]).unwrap()),
        ));
    }
}

/// Lines of which each is empty or holds an address read as addresses
/// only.
pub proof fn lemma_readings_without_failure(lines: Seq<Seq<char>>)
    requires
        forall|i: int|
            0 <= i < lines.len() ==> (#[trigger] lines[i]).len() == 0 || address_from_text(
                lines[i],
            ) is Some,
    ensures
        forall|j: int| 0 <= j < line_readings(lines).len() ==> (#[trigger] line_readings(
            lines,
        )[j]) is Ok,
    decreases lines.len(),
{
    if lines.len() > 0 {
        let front = lines.drop_last();
        assert forall|i: int| 0 <= i < front.len() implies (#[trigger] front[i]).len() == 0
            || address_from_text(front[i]) is Some by {
            assert(front[i] == lines[i]);
        }
        lemma_readings_without_failure(front);
        assert(lines.last() == lines[lines.len() - 1]);
    }
}

/// What the first `count` lines read as stands at the start of what all
/// lines read as.
pub proof fn lemma_readings_prefix(lines: Seq<Seq<char>>, count: int)
    requires
        0 <= count <= lines.len(),
    ensures
        line_readings(lines.take(count)).len() <= line_readings(lines).len(),
        line_readings(lines).take(line_readings(lines.take(count)).len() as int) == line_readings(
            lines.take(count),
        ),
    decreases lines.len(),
{
    if count == lines.len() {
        assert(lines.take(count) == lines);
        assert(line_readings(lines).take(line_readings(lines).len() as int) == line_readings(
            lines,
        ));
    } else {
        let front = lines.drop_last();
        lemma_readings_prefix(front, count);
        assert(front.take(count) == lines.take(count));
        let short = line_readings(lines.take(count));
        assert(line_readings(front).take(short.len() as int) == short);
        if lines.last().len() != 0 {
            let reading = line_readings(lines).last();
            assert(line_readings(lines) == line_readings(front).push(reading));
            assert(line_readings(lines).take(short.len() as int) == line_readings(front).take(
                short.len() as int,
            ));
        }
    }
}

/// A file that is written from lines that all hold an address, with a
/// newline between them and with or without one at the end, lists those
/// addresses: as many as there are lines and in the order of the lines.
pub proof fn lemma_file_of_valid_lines(lines: Seq<Seq<char>>)
    requires
        lines.len() >= 1,
        forall|i: int| 0 <= i < lines.len() ==> address_from_text(#[trigger] lines[i]) is Some,
    ensures
        addresses_in_file(join(lines, '\n')) == Ok::<Seq<IpAddressModel>, int>(
            Seq::new(lines.len(), |i: int| address_from_text(lines[i]).unwrap()),
        ),
        addresses_in_file(join(lines, '\n').push('\n')) == Ok::<Seq<IpAddressModel>, int>(
            Seq::new(lines.len(), |i: int| address_from_text(lines[i]).unwrap()),
        ),
{
    assert forall|i: int| 0 <= i < lines.len() implies free_of(#[trigger] lines[i], '\n') by {
        lemma_address_chars(lines[i]);
    }
    lemma_split_join(lines, '\n');
    let content = join(lines, '\n');
    lemma_lines_of_valid_addresses(content, lines);
    let ended = content.push('\n');
    assert(ended.drop_last() == content);
    assert(lines_of(ended) == lines.push(Seq::<char>::empty()));
    lemma_lines_of_valid_addresses(ended, lines);
}

/// A file whose lines all hold an address, but for an empty rest after the
/// last newline, lists those addresses: as many as there are lines and in
/// the order of the lines.
pub proof fn lemma_lines_of_valid_addresses(content: Seq<char>, lines: Seq<Seq<char>>)
    requires
        lines_of(content) == lines || lines_of(content) == lines.push(Seq::<char>::empty()),
        forall|i: int| 0 <= i < lines.len() ==> address_from_text(#[trigger] lines[i]) is Some,
    ensures
        addresses_in_file(content) == Ok::<Seq<IpAddressModel>, int>(
            Seq::new(lines.len(), |i: int| address_from_text(lines[i]).unwrap()),
        ),
{
    lemma_readings_of_valid_lines(lines);
    let readings = line_readings(lines);
    if lines_of(content) != lines {
        let longer = lines.push(Seq::<char>::empty());
        assert(longer.drop_last() == lines);
        assert(line_readings(longer) == readings);
    }
    assert(line_readings(lines_of(content)) == readings);
    lemma_gathered_all(readings);
    assert(values_of(readings) == Seq::new(
        lines.len(),
        |i: int| address_from_text(lines[i]).unwrap(),
    ));
}

/// A file in which line `number`, counted from one, is the first that is
/// not empty and holds no address is refused with that number, whatever
/// the lines after it hold.
pub proof fn lemma_file_with_invalid_line(content: Seq<char>, number: int)
    requires
        1 <= number <= lines_of(content).len(),
        lines_of(content)[number - 1].len() > 0,
        address_from_text(lines_of(content)[number - 1]) is None,
        forall|j: int|
            0 <= j < number - 1 ==> (#[trigger] lines_of(content)[j]).len() == 0
                || address_from_text(lines_of(content)[j]) is Some,
    ensures
        addresses_in_file(content) == Err::<Seq<IpAddressModel>, int>(number),
{
    let lines = lines_of(content);
    let before = lines.take(number - 1);
    let upto = lines.take(number);
    assert forall|i: int| 0 <= i < before.len() implies (#[trigger] before[i]).len() == 0
        || address_from_text(before[i]) is Some by {
        assert(before[i] == lines[i]);
    }
    lemma_readings_without_failure(before);
    assert(upto.drop_last() == before);
    assert(upto.last() == lines[number - 1]);
    let valid = line_readings(before);
    assert(line_readings(upto) == valid.push(Err::<IpAddressModel, int>(number)));
    lemma_readings_prefix(lines, number);
    let all = line_readings(lines);
    let at = valid.len() as int;
    assert(all.take(at + 1) == valid.push(Err::<IpAddressModel, int>(number)));
    assert(all[at] == all.take(at + 1)[at]);
    assert forall|j: int| 0 <= j < at implies (#[trigger] all[j]) is Ok by {
        assert(all[j] == all.take(at + 1)[j]);
        assert(valid[j] is Ok);
    }
    lemma_gathered_first_failure(all, at);
}

/// Reads a list of IP addresses from the content of a file, in which they
/// are separated by newlines. Each line that is not empty is read, and the
/// caller has to handle the lines that hold no address.
///
/// A file without any line to read is refused: the list of readings that
/// is returned is never empty.
pub fn read_ip_addresses_from_file(content: &str) -> (readings: Result<
    Vec<Result<IpAddress, InvalidAddressError>>,
    GeolocationBuildError,
>)
    ensures
        match readings {
            Ok(list) => reading_views(list@) == line_readings(lines_of(content@)) && list@.len()
                > 0,
            Err(error) => error == GeolocationBuildError::NoIpAddressProvidedError
                && line_readings(lines_of(content@)).len() == 0,
        },
{
    let chars = chars_of(content);
    let lines = split_chars(&chars, '\n');
    let ghost texts = piece_views(lines@);
    let mut readings: Vec<Result<IpAddress, InvalidAddressError>> = Vec::new();
    let mut i: usize = 0;
    assert(texts.take(0) == Seq::<Seq<char>>::empty());
    assert(reading_views(readings@) == Seq::<Result<IpAddressModel, int>>::empty());
    while i < lines.len()
        invariant
            i <= lines.len(),
            texts == piece_views(lines@),
            reading_views(readings@) == line_readings(texts.take(i as int)),
        decreases lines.len() - i,
    {
        proof {
            let prefix = texts.take(i + 1);
            assert(prefix.drop_last() == texts.take(i as int));
            assert(prefix.last() == lines@[i as int]@);
        }
        if lines[i].len() != 0 {
            let ghost before = readings@;
            let reading = match IpAddress::parse_chars(&lines[i]) {
                Some(address) => Ok(address),
                None => Err(InvalidAddressError { line: i + 1 }),
            };
            readings.push(reading);
            assert(reading_views(readings@) == reading_views(before).push(
                match reading {
                    Ok(address) => Ok(address@),
                    Err(invalid) => Err(invalid.line as int),
                },
            ));
        }
        i += 1;
    }
    assert(texts.take(lines.len() as int) == texts);
    if readings.len() == 0 {
        Err(GeolocationBuildError::NoIpAddressProvidedError)
    } else {
        Ok(readings)
    }
}

/// `resolved` is what the content of an address file resolves to.
///
/// With a line that is not empty and holds no address, it is the error
/// that cites the first such line. Without any address it is the error that
/// none is provided. Else it is the list of the addresses, which is never
/// empty, in the order of the lines.
pub open spec fn resolves_to(
    content: Seq<char>,
    resolved: Result<Vec<IpAddress>, GeolocationBuildError>,
) -> bool {
    match addresses_in_file(content) {
        Err(line) => resolved matches Err(GeolocationBuildError::InvalidIpAddress(invalid))
            && invalid.line == line,
        Ok(addresses) => if addresses.len() == 0 {
            resolved == Err::<Vec<IpAddress>, GeolocationBuildError>(
                GeolocationBuildError::NoIpAddressProvidedError,
            )
        } else {
            resolved matches Ok(list) && address_views(list@) == addresses
        },
    }
}

/// A file that is empty, or that holds empty lines only, lists no address.
pub proof fn lemma_file_without_addresses(content: Seq<char>)
    requires
        forall|i: int| 0 <= i < lines_of(content).len() ==> (#[trigger] lines_of(content)[i]).len()
            == 0,
    ensures
        addresses_in_file(content) == Ok::<Seq<IpAddressModel>, int>(Seq::empty()),
{
    lemma_no_readings_of_empty_lines(lines_of(content));
    lemma_gathered_all(line_readings(lines_of(content)));
    assert(values_of(line_readings(lines_of(content))) == Seq::<IpAddressModel>::empty());
}

/// Empty lines are not read.
proof fn lemma_no_readings_of_empty_lines(lines: Seq<Seq<char>>)
    requires
        forall|i: int| 0 <= i < lines.len() ==> (#[trigger] lines[i]).len() == 0,
    ensures
        line_readings(lines).len() == 0,
    decreases lines.len(),
{
    if lines.len() > 0 {
        assert forall|i: int| 0 <= i < lines.drop_last().len() implies (
        #[trigger] lines.drop_last()[i]).len() == 0 by {
            assert(lines.drop_last()[i] == lines[i]);
        }
        lemma_no_readings_of_empty_lines(lines.drop_last());
        assert(lines.last() == lines[lines.len() - 1]);
    }
}

/// Resolves the content of an address file, in which the addresses are
/// separated by newlines, to the list of its addresses.
///
/// If any line that is not empty holds no address, no address is returned,
/// but the first such line. A file without any address is refused too: the
/// list that is returned is never empty.
pub fn resolve_file(content: &str) -> (resolved: Result<Vec<IpAddress>, GeolocationBuildError>)
    ensures
        resolves_to(content@, resolved),
        resolved matches Ok(list) ==> list@.len() > 0,
{
    let readings = match read_ip_addresses_from_file(content) {
        Ok(readings) => readings,
        Err(error) => {
            proof {
                let none = line_readings(lines_of(content@));
                lemma_gathered_all(none);
                assert(values_of(none) == Seq::<IpAddressModel>::empty());
            }
            return Err(error);
        },
    };
    let ghost all = readings@;
    let whole = gather(readings);
    proof {
        lemma_first_failure(all);
        let at = first_failure(all);
        let views = reading_views(all);
        assert forall|j: int| 0 <= j < at implies (#[trigger] views[j]) is Ok by {
            assert(all[j] is Ok);
        }
        if at < all.len() {
            assert(views[at] is Err);
        }
        lemma_first_failure_unique(views, at);
        if whole is Ok {
            assert(address_views(whole->Ok_0@) == values_of(views));
        }
    }
    match whole {
        Err(invalid) => Err(GeolocationBuildError::InvalidIpAddress(invalid)),
        Ok(addresses) => Ok(addresses),
    }
}

/// Gathers the outcomes of the requests of a lookup, which are given in
/// the order of the requests, after all of them have ended.
///
/// If any request failed, the lookup fails with the first failure and
/// yields no data; else it yields the data of all requests in their order.
pub fn fetch_many<T>(outcomes: Vec<Result<T, FetchError>>) -> (data: Result<Vec<T>, FetchError>)
    ensures
        match data {
            Ok(values) => gathered(outcomes@) == Ok::<Seq<T>, FetchError>(values@),
            Err(failure) => gathered(outcomes@) == Err::<Seq<T>, FetchError>(failure),
        },
{
    gather(outcomes)
}

/// Requests that a provider answers each with a body yield exactly those
/// bodies, in the order of the requests: for a single request as for many.
/// `answer` stands for the provider: it tells the body for each URL.
pub proof fn lemma_answers_come_back<T>(urls: Seq<Seq<char>>, answer: spec_fn(Seq<char>) -> T)
    ensures
        gathered(Seq::new(urls.len(), |i: int| Ok::<T, FetchError>(answer(urls[i]))))
            == Ok::<Seq<T>, FetchError>(Seq::new(urls.len(), |i: int| answer(urls[i]))),
{
    let outcomes = Seq::new(urls.len(), |i: int| Ok::<T, FetchError>(answer(urls[i])));
    lemma_gathered_all(outcomes);
    assert(values_of(outcomes) == Seq::new(urls.len(), |i: int| answer(urls[i])));
}

/// Requests that are all answered with the body of a JSON object yield
/// exactly the objects that the bodies are read as, in the order of the
/// requests: for a single request as for many.
pub proof fn lemma_bodies_come_back(
    bodies: Seq<Seq<u8>>,
    outcomes: Seq<Result<JsonObject, FetchError>>,
)
    requires
        outcomes.len() == bodies.len(),
        forall|i: int| 0 <= i < bodies.len() ==> decodes_to(bodies[i], #[trigger] outcomes[i]),
        forall|i: int| 0 <= i < bodies.len() ==> is_json_object(#[trigger] bodies[i]),
    ensures
        gathered(outcomes) == Ok::<Seq<JsonObject>, FetchError>(
            Seq::new(bodies.len(), |i: int| decoded_object(bodies[i])->Some_0),
        ),
{
    assert forall|i: int| 0 <= i < outcomes.len() implies (#[trigger] outcomes[i]) is Ok by {
        assert(is_json_object(bodies[i]));
    }
    lemma_gathered_all(outcomes);
    assert(values_of(outcomes) == Seq::new(
        bodies.len(),
        |i: int| decoded_object(bodies[i])->Some_0,
    )) by {
        assert forall|i: int| 0 <= i < outcomes.len() implies values_of(outcomes)[i]
            == decoded_object(bodies[i])->Some_0 by {
            assert(decodes_to(bodies[i], outcomes[i]));
            assert(is_json_object(bodies[i]));
        }
    }
}

/// Requests of which any one is answered with a body that is no JSON
/// object yield no data, whatever the other bodies are.
pub proof fn lemma_bad_body_fails_all(
    bodies: Seq<Seq<u8>>,
    outcomes: Seq<Result<JsonObject, FetchError>>,
    bad: int,
)
    requires
        outcomes.len() == bodies.len(),
        forall|i: int| 0 <= i < bodies.len() ==> decodes_to(bodies[i], #[trigger] outcomes[i]),
        0 <= bad < bodies.len(),
        !is_json_object(bodies[bad]),
    ensures
        gathered(outcomes) is Err,
{
    assert(decodes_to(bodies[bad], outcomes[bad]));
    lemma_gathered_any_failure(outcomes, bad);
}

/// Requests of which any one fails yield no data, whatever the others
/// yield.
pub proof fn lemma_any_failure_fails_all<T>(outcomes: Seq<Result<T, FetchError>>, failed: int)
    requires
        0 <= failed < outcomes.len(),
        outcomes[failed] is Err,
    ensures
        gathered(outcomes) is Err,
{
    lemma_gathered_any_failure(outcomes, failed);
}

/// What is to be done next for a lookup.
#[derive(Clone, Debug, PartialEq, Eq)]
pub enum LookupStep {
    /// The arguments are refused. The reason is to be shown to the user;
    /// nothing is fetched and the command ends.
    Refused(MutualExclusivityError),
    /// The file at this path is to be read; with its content the lookup goes
    /// on in [`fetch_from_file`].
    ReadFile(String),
    /// These requests are to be sent; with their outcomes the lookup goes on
    /// in [`fetch_many`].
    Fetch(FetchPlan),
}

/// `step` is the first step of the lookup that `arguments` ask for, with
/// the tokens of `store`.
///
/// Arguments that give both or neither of addresses and file are refused.
/// For a file the first step is to read it. For addresses it is what
/// [`planned`] says of them and of the provider that the arguments name.
pub open spec fn started<T>(
    step: Result<LookupStep, GeolocationBuildError>,
    arguments: T,
    store: &ApiKeyStore,
) -> bool where
    T: MutualExclusivity<ExclusiveValue = ExclusiveGeolocationArgument>
        + GeolocationInput
        + GeolocationProvider,
 {
    match arguments.exclusive_value() {
        Err(refusal) => step == Ok::<LookupStep, GeolocationBuildError>(
            LookupStep::Refused(refusal),
        ),
        Ok(ExclusiveGeolocationArgument::File) => match arguments.given_file() {
            Some(path) => step == Ok::<LookupStep, GeolocationBuildError>(
                LookupStep::ReadFile(path),
            ),
            None => step == Ok::<LookupStep, GeolocationBuildError>(
                LookupStep::Refused(MutualExclusivityError::NeitherFileNorAddresses),
            ),
        },
        Ok(ExclusiveGeolocationArgument::IpAddresses) => match arguments.given_addrs() {
            Some(addrs) => planned(step, arguments.chosen_provider(), address_views(addrs@), store),
            None => step == Ok::<LookupStep, GeolocationBuildError>(
                LookupStep::Refused(MutualExclusivityError::NeitherFileNorAddresses),
            ),
        },
    }
}

/// Starts a lookup of geolocation data at the provider that the arguments
/// name.
///
/// Arguments that give both or neither of addresses and file are refused.
/// For a file the next step is to read it. For addresses the token of the
/// provider is looked up, and the next step is to send the requests; the
/// lookup fails if there is no token, and else if there is no address.
pub fn fetch_from_provider<T>(arguments: T, store: &ApiKeyStore) -> (step: Result<
    LookupStep,
    GeolocationBuildError,
>) where
    T: MutualExclusivity<ExclusiveValue = ExclusiveGeolocationArgument>
        + GeolocationInput
        + GeolocationProvider,

    ensures
        started(step, arguments, store),
{
    let mut arguments = arguments;
    match arguments.check_exclusivity() {
        Ok(ExclusiveGeolocationArgument::IpAddresses) => {
            let provider = arguments.provider();
            match arguments.addrs() {
                Some(addrs) => plan_lookup(addrs, provider, store),
                None => Ok(LookupStep::Refused(MutualExclusivityError::NeitherFileNorAddresses)),
            }
        },
        Ok(ExclusiveGeolocationArgument::File) => {
            match arguments.file() {
                Some(path) => Ok(LookupStep::ReadFile(path)),
                None => Ok(LookupStep::Refused(MutualExclusivityError::NeitherFileNorAddresses)),
            }
        },
        Err(refusal) => Ok(LookupStep::Refused(refusal)),
    }
}

/// What is to be done next with the configuration.
#[derive(Clone, Copy, Debug, PartialEq, Eq, Structural)]
pub enum ConfigStep {
    /// The arguments are refused. The reason is to be shown to the user,
    /// and the command ends.
    Refused(MutualExclusivityError),
    /// The configuration file is to be opened in the editor that the user
    /// prefers, and then to be read again.
    Edit,
    /// The configuration file is to be read and its tokens are to be shown.
    Show,
}

/// What [`read_or_modify_configuration`] tells for each outcome of the
/// check of the arguments.
pub open spec fn config_step(checked: Result<ExclusiveConfigArgument, MutualExclusivityError>) -> ConfigStep {
    match checked {
        Ok(ExclusiveConfigArgument::Edit) => ConfigStep::Edit,
        Ok(ExclusiveConfigArgument::Show) => ConfigStep::Show,
        Err(refusal) => ConfigStep::Refused(refusal),
    }
}

/// Tells whether to read or to modify the configuration file where the API
/// keys are stored.
pub fn read_or_modify_configuration<T>(arguments: T) -> (step: ConfigStep) where
    T: MutualExclusivity<ExclusiveValue = ExclusiveConfigArgument>,

    ensures
        step == config_step(arguments.exclusive_value()),
{
    match arguments.check_exclusivity() {
        Ok(ExclusiveConfigArgument::Edit) => ConfigStep::Edit,
        Ok(ExclusiveConfigArgument::Show) => ConfigStep::Show,
        Err(refusal) => ConfigStep::Refused(refusal),
    }
}

/// `step` is what a lookup of `addresses` at `provider` comes to with the
/// tokens of `store`: without a token for the provider it fails, without an
/// address it fails too, and else the requests for the addresses are to be
/// sent, a single one on its own.
pub open spec fn planned(
    step: Result<LookupStep, GeolocationBuildError>,
    provider: Provider,
    addresses: Seq<IpAddressModel>,
    store: &ApiKeyStore,
) -> bool {
    match store.token(provider) {
        None => step == Err::<LookupStep, GeolocationBuildError>(
            GeolocationBuildError::TokenMissingError(
                MissingTokenError { provider, wording: TokenWording::NotSpecified },
            ),
        ),
        Some(token) => if addresses.len() == 0 {
            step == Err::<LookupStep, GeolocationBuildError>(
                GeolocationBuildError::NoIpAddressProvidedError,
            )
        } else {
            &&& step matches Ok(LookupStep::Fetch(plan))
            &&& plan.urls() == request_urls(provider, addresses, token)
            &&& plan is Single <==> addresses.len() == 1
        },
    }
}

/// Without a token for the provider no request is planned, whatever the
/// addresses are: the lookup fails before anything is sent.
pub proof fn lemma_no_request_without_token(
    step: Result<LookupStep, GeolocationBuildError>,
    provider: Provider,
    addresses: Seq<IpAddressModel>,
    store: &ApiKeyStore,
)
    requires
        planned(step, provider, addresses, store),
        store.token(provider) is None,
    ensures
        step == Err::<LookupStep, GeolocationBuildError>(
            GeolocationBuildError::TokenMissingError(
                MissingTokenError { provider, wording: TokenWording::NotSpecified },
            ),
        ),
        !(step matches Ok(LookupStep::Fetch(_))),
{
}

/// Plans the requests for the given addresses at `provider`.
pub fn plan_lookup(addresses: Vec<IpAddress>, provider: Provider, store: &ApiKeyStore) -> (step:
    Result<LookupStep, GeolocationBuildError>)
    ensures
        planned(step, provider, address_views(addresses@), store),
{
    match Geolocation::try_new(addresses, provider, store) {
        Ok(geolocation) => Ok(LookupStep::Fetch(geolocation.fetch(provider))),
        Err(error) => Err(error),
    }
}

/// Goes on with a lookup after the address file was read, or could not be
/// read: `read` is the content of the file, or the cause of the failure.
///
/// The lookup fails if the file could not be read, else with the first
/// line that is not empty and holds no address, else if the file lists no
/// address, and else as a lookup of the addresses that the file lists.
pub fn fetch_from_file(read: Result<String, String>, provider: Provider, store: &ApiKeyStore) -> (step:
    Result<LookupStep, GeolocationBuildError>)
    ensures
        match read {
            Err(cause) => step matches Err(GeolocationBuildError::FileNotGood(kept)) && kept@
                == cause@,
            Ok(content) => match addresses_in_file(content@) {
                Err(line) => step matches Err(GeolocationBuildError::InvalidIpAddress(invalid))
                    && invalid.line == line,
                Ok(addresses) => if addresses.len() == 0 {
                    step == Err::<LookupStep, GeolocationBuildError>(
                        GeolocationBuildError::NoIpAddressProvidedError,
                    )
                } else {
                    planned(step, provider, addresses, store)
                },
            },
        },
{
    match read {
        Err(cause) => Err(GeolocationBuildError::FileNotGood(cause)),
        Ok(content) => match resolve_file(content.as_str()) {
            Err(error) => Err(error),
            Ok(addresses) => plan_lookup(addresses, provider, store),
        },
    }
}

} // verus!
